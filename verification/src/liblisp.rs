//! The `Literal` type: both the parsed expression tree and the runtime
//! value of evaluation, together with its rendering and the numeric
//! operations the arithmetic builtins use.
use vstd::prelude::*;
use vstd::string::StringExecFns;
use crate::arith::{add_bits, sub_bits, mul_bits, div_bits, num_text};
use crate::env::{
    apply, apply_defn, eval_args, evaluate_args, fold_add_v, fold_mul_v, lemma_eval_args_len,
    one_bits, ExecV, Executable, ExecutionEnv, strings_view,
};
use crate::strmap::StrMap;
use crate::text::{dec_int, push_char};

verus! {

/// An expression or value: strings and numbers are self-evaluating, an
/// atom is a bare symbol, a list is a compound form, and an error is a
/// value that propagates like any other (never a host failure).  Numbers
/// carry the 64-bit encoding of an IEEE-754 binary64 value.
#[derive(Debug, PartialEq)]
pub enum Literal {
    Str(String),
    Num(u64),
    Atom(String),
    List(Vec<Literal>),
    ErrVal(String, i64),
}

/// The mathematical value of a `Literal`.
pub enum LitV {
    Str(Seq<char>),
    Num(u64),
    Atom(Seq<char>),
    List(Seq<LitV>),
    ErrVal(Seq<char>, int),
}

/// The mathematical value of a literal.
pub open spec fn lit_view(l: Literal) -> LitV
    decreases l,
{
    match l {
        Literal::Str(s) => LitV::Str(s@),
        Literal::Num(n) => LitV::Num(n),
        Literal::Atom(s) => LitV::Atom(s@),
        Literal::List(v) => LitV::List(lits_view(v@)),
        Literal::ErrVal(s, c) => LitV::ErrVal(s@, c as int),
    }
}

/// The mathematical values of a sequence of literals, in order.
pub open spec fn lits_view(s: Seq<Literal>) -> Seq<LitV>
    decreases s,
{
    if s.len() == 0 {
        Seq::empty()
    } else {
        seq![lit_view(s[0])] + lits_view(s.drop_first())
    }
}

impl View for Literal {
    type V = LitV;

    open spec fn view(&self) -> LitV {
        lit_view(*self)
    }
}

/// `lits_view` maps `lit_view` over the sequence, element by element.
pub proof fn lemma_lits_view(s: Seq<Literal>)
    ensures
        lits_view(s).len() == s.len(),
        forall|i: int| 0 <= i < s.len() ==> #[trigger] lits_view(s)[i] == lit_view(s[i]),
    decreases s.len(),
{
    if s.len() > 0 {
        lemma_lits_view(s.drop_first());
    }
}

/// The rendering of a value: strings, atoms and errors render as text, a
/// number renders in decimal, and a list renders as its elements'
/// renderings between one `(` and one `)` with no separators.
pub open spec fn print_v(l: LitV) -> Seq<char>
    decreases l,
{
    match l {
        LitV::Str(s) => s,
        LitV::Num(n) => num_text(n),
        LitV::Atom(s) => s,
        LitV::ErrVal(s, c) => s + " with code "@ + dec_int(c),
        LitV::List(items) => seq!['('] + prints_v(items) + seq![')'],
    }
}

/// The concatenated renderings of a sequence of values.
pub open spec fn prints_v(items: Seq<LitV>) -> Seq<char>
    decreases items,
{
    if items.len() == 0 {
        Seq::empty()
    } else {
        print_v(items[0]) + prints_v(items.drop_first())
    }
}

/// Appending one value extends the concatenated rendering at the end.
pub proof fn lemma_prints_push(s: Seq<LitV>, x: LitV)
    ensures
        prints_v(s.push(x)) == prints_v(s) + print_v(x),
    decreases s.len(),
{
    if s.len() == 0 {
        assert(s.push(x)[0] == x);
        assert(s.push(x).drop_first() =~= Seq::<LitV>::empty());
        assert(prints_v(s.push(x)) == print_v(x) + prints_v(Seq::<LitV>::empty()));
        assert(prints_v(s.push(x)) =~= prints_v(s) + print_v(x));
    } else {
        lemma_prints_push(s.drop_first(), x);
        assert(s.push(x).drop_first() =~= s.drop_first().push(x));
        assert(prints_v(s.push(x)) =~= prints_v(s) + print_v(x));
    }
}

impl Literal {
    /// A structurally equal copy.
    pub fn duplicate(&self) -> (r: Literal)
        ensures
            r@ == self@,
        decreases *self,
    {
        match self {
            Literal::Str(s) => Literal::Str(s.clone()),
            Literal::Num(n) => Literal::Num(*n),
            Literal::Atom(s) => Literal::Atom(s.clone()),
            Literal::ErrVal(s, c) => Literal::ErrVal(s.clone(), *c),
            Literal::List(l) => {
                let mut v: Vec<Literal> = Vec::new();
                let n = l.len();
                let mut i: usize = 0;
                while i < n
                    invariant
                        *self == Literal::List(*l),
                        n == l.len(),
                        i <= n,
                        v@.len() == i,
                        forall|j: int| 0 <= j < i ==> (#[trigger] v@[j])@ == l@[j]@,
                    decreases n - i,
                {
                    proof {
                        assert(decreases_to!(*self => (*self)->List_0));
                        assert((*self)->List_0 == *l);
                        assert(decreases_to!(*l => l@));
                        assert(decreases_to!(l@ => l@[i as int]));
                    }
                    let d = (&l[i]).duplicate();
                    v.push(d);
                    i = i + 1;
                }
                proof {
                    lemma_lits_view(v@);
                    lemma_lits_view(l@);
                    assert(lits_view(v@) =~= lits_view(l@));
                }
                Literal::List(v)
            },
        }
    }

    /// The textual rendering of this value.
    pub fn print(&self) -> (r: String)
        ensures
            r@ == print_v(self@),
        decreases *self,
    {
        match self {
            Literal::Str(s) => s.clone(),
            Literal::Num(n) => crate::arith::render_num(*n),
            Literal::Atom(s) => s.clone(),
            Literal::ErrVal(s, c) => {
                let mut r = s.clone();
                r.append(" with code ");
                let t = crate::text::dec_i64(*c);
                r.append(t.as_str());
                r
            },
            Literal::List(l) => {
                let mut r: String = "(".to_owned();
                let n = l.len();
                let mut i: usize = 0;
                proof {
                    lemma_lits_view(l@);
                    reveal_strlit("(");
                    assert(r@ =~= seq!['(']);
                }
                while i < n
                    invariant
                        *self == Literal::List(*l),
                        n == l.len(),
                        i <= n,
                        lits_view(l@).len() == n,
                        forall|j: int|
                            0 <= j < n ==> #[trigger] lits_view(l@)[j] == lit_view(l@[j]),
                        r@ == seq!['('] + prints_v(lits_view(l@).take(i as int)),
                    decreases n - i,
                {
                    proof {
                        assert(decreases_to!(*self => (*self)->List_0));
                        assert((*self)->List_0 == *l);
                        assert(decreases_to!(*l => l@));
                        assert(decreases_to!(l@ => l@[i as int]));
                    }
                    let t = (&l[i]).print();
                    r.append(t.as_str());
                    proof {
                        lemma_prints_push(lits_view(l@).take(i as int), lit_view(l@[i as int]));
                        assert(lits_view(l@).take(i as int + 1) =~= lits_view(l@).take(
                            i as int,
                        ).push(lit_view(l@[i as int])));
                    }
                    i = i + 1;
                }
                push_char(&mut r, ')');
                proof {
                    assert(lits_view(l@).take(n as int) =~= lits_view(l@));
                }
                r
            },
        }
    }
}

/// The sum of two values: the binary64 sum when both are numbers, and a
/// type-error value otherwise.
pub open spec fn lit_add_v(a: LitV, b: LitV) -> LitV {
    if a is Num && b is Num {
        LitV::Num(add_bits(a->Num_0, b->Num_0))
    } else {
        LitV::ErrVal("Type Error: Addition between non-numeric types not supported"@, -4)
    }
}

/// The difference of two values, or a type-error value.
pub open spec fn lit_sub_v(a: LitV, b: LitV) -> LitV {
    if a is Num && b is Num {
        LitV::Num(sub_bits(a->Num_0, b->Num_0))
    } else {
        LitV::ErrVal("Type Error: Subtraction between non-numeric types not supported"@, -4)
    }
}

/// The product of two values, or a type-error value.
pub open spec fn lit_mul_v(a: LitV, b: LitV) -> LitV {
    if a is Num && b is Num {
        LitV::Num(mul_bits(a->Num_0, b->Num_0))
    } else {
        LitV::ErrVal("Type Error: Multiplication between non-numeric types not supported"@, -4)
    }
}

/// The quotient of two values, or a type-error value.  Division by zero is
/// not trapped: it yields whatever IEEE-754 division yields.
pub open spec fn lit_div_v(a: LitV, b: LitV) -> LitV {
    if a is Num && b is Num {
        LitV::Num(div_bits(a->Num_0, b->Num_0))
    } else {
        LitV::ErrVal("Type Error: Division between non-numeric types not supported"@, -4)
    }
}

/// The sum of two values, as `lit_add_v` states.
pub fn lit_add(a: Literal, b: Literal) -> (r: Literal)
    ensures
        r@ == lit_add_v(a@, b@),
{
    match (a, b) {
        (Literal::Num(x), Literal::Num(y)) => Literal::Num(crate::arith::add_exec(x, y)),
        _ => Literal::ErrVal(
            "Type Error: Addition between non-numeric types not supported".to_owned(),
            -4,
        ),
    }
}

/// The difference of two values, as `lit_sub_v` states.
pub fn lit_sub(a: Literal, b: Literal) -> (r: Literal)
    ensures
        r@ == lit_sub_v(a@, b@),
{
    match (a, b) {
        (Literal::Num(x), Literal::Num(y)) => Literal::Num(crate::arith::sub_exec(x, y)),
        _ => Literal::ErrVal(
            "Type Error: Subtraction between non-numeric types not supported".to_owned(),
            -4,
        ),
    }
}

/// The product of two values, as `lit_mul_v` states.
pub fn lit_mul(a: Literal, b: Literal) -> (r: Literal)
    ensures
        r@ == lit_mul_v(a@, b@),
{
    match (a, b) {
        (Literal::Num(x), Literal::Num(y)) => Literal::Num(crate::arith::mul_exec(x, y)),
        _ => Literal::ErrVal(
            "Type Error: Multiplication between non-numeric types not supported".to_owned(),
            -4,
        ),
    }
}

/// The quotient of two values, as `lit_div_v` states.
pub fn lit_div(a: Literal, b: Literal) -> (r: Literal)
    ensures
        r@ == lit_div_v(a@, b@),
{
    match (a, b) {
        (Literal::Num(x), Literal::Num(y)) => Literal::Num(crate::arith::div_exec(x, y)),
        _ => Literal::ErrVal(
            "Type Error: Division between non-numeric types not supported".to_owned(),
            -4,
        ),
    }
}


/// The mathematical builtin table: the six native operations by name.
pub open spec fn builtins_map() -> Map<Seq<char>, ExecV> {
    Map::<Seq<char>, ExecV>::empty().insert("progn"@, ExecV::Builtin(0)).insert(
        "+"@,
        ExecV::Builtin(1),
    ).insert("-"@, ExecV::Builtin(2)).insert("*"@, ExecV::Builtin(3)).insert(
        "/"@,
        ExecV::Builtin(4),
    ).insert("defn"@, ExecV::Builtin(5))
}

/// The fixed registry of native operations, keyed by name.
pub fn builtins_table() -> (r: StrMap<Executable>)
    ensures
        r@ == builtins_map(),
{
    let mut m: StrMap<Executable> = StrMap::new();
    m.insert("progn".to_owned(), Executable::Builtin(0));
    m.insert("+".to_owned(), Executable::Builtin(1));
    m.insert("-".to_owned(), Executable::Builtin(2));
    m.insert("*".to_owned(), Executable::Builtin(3));
    m.insert("/".to_owned(), Executable::Builtin(4));
    m.insert("defn".to_owned(), Executable::Builtin(5));
    m
}

/// The sequencing form: evaluates every argument in order and keeps only
/// the last result; zero arguments is an error value (code -1).
pub fn builtin_progn(env: &mut ExecutionEnv, params: Vec<Literal>, fuel: u64) -> (r: Option<
    Literal,
>)
    ensures
        apply(old(env)@, ExecV::Builtin(0), lits_view(params@), fuel as nat) is Some <==> r
            is Some,
        r is Some ==> final(env)@ == (apply(
            old(env)@,
            ExecV::Builtin(0),
            lits_view(params@),
            fuel as nat,
        )->0).0,
        r is Some ==> (r->0)@ == (apply(
            old(env)@,
            ExecV::Builtin(0),
            lits_view(params@),
            fuel as nat,
        )->0).1,
    decreases fuel, lits_view(params@), 1int,
{
    let ghost argsv = lits_view(params@);
    let no_args = params.len() == 0;
    proof {
        lemma_lits_view(params@);
    }
    let res = evaluate_args(env, params, fuel);
    match res {
        None => None,
        Some(vals) => {
            if no_args {
                Some(Literal::ErrVal("Form progn requires at least one argument".to_owned(), -1))
            } else {
                proof {
                    lemma_eval_args_len(old(env)@, argsv, fuel as nat);
                    lemma_lits_view(vals@);
                }
                let mut v = vals;
                let last = v.pop();
                match last {
                    Some(x) => Some(x),
                    None => {
                        proof {
                            assert(false);
                        }
                        None
                    },
                }
            }
        },
    }
}

/// The addition form: evaluates every argument and folds binary64
/// addition over the results, starting from zero; a non-numeric operand
/// folds into a type-error value.
pub fn builtin_add(env: &mut ExecutionEnv, params: Vec<Literal>, fuel: u64) -> (r: Option<Literal>)
    ensures
        apply(old(env)@, ExecV::Builtin(1), lits_view(params@), fuel as nat) is Some <==> r
            is Some,
        r is Some ==> final(env)@ == (apply(
            old(env)@,
            ExecV::Builtin(1),
            lits_view(params@),
            fuel as nat,
        )->0).0,
        r is Some ==> (r->0)@ == (apply(
            old(env)@,
            ExecV::Builtin(1),
            lits_view(params@),
            fuel as nat,
        )->0).1,
    decreases fuel, lits_view(params@), 1int,
{
    let res = evaluate_args(env, params, fuel);
    match res {
        None => None,
        Some(vals) => {
            let ghost vsv = lits_view(vals@);
            proof {
                lemma_lits_view(vals@);
            }
            let mut acc = Literal::Num(0);
            let n = vals.len();
            let mut i: usize = 0;
            proof {
                assert(vsv.skip(0) =~= vsv);
            }
            while i < n
                invariant
                    n == vals.len(),
                    i <= n,
                    vsv == lits_view(vals@),
                    vsv.len() == n,
                    forall|j: int| 0 <= j < n ==> #[trigger] vsv[j] == lit_view(vals@[j]),
                    fold_add_v(acc@, vsv.skip(i as int)) == fold_add_v(LitV::Num(0), vsv),
                decreases n - i,
            {
                proof {
                    assert(vsv.skip(i as int)[0] == vsv[i as int]);
                    assert(vsv.skip(i as int).drop_first() =~= vsv.skip(i as int + 1));
                }
                let x = (&vals[i]).duplicate();
                acc = lit_add(acc, x);
                i = i + 1;
            }
            proof {
                assert(vsv.skip(n as int) =~= Seq::<LitV>::empty());
            }
            Some(acc)
        },
    }
}

/// The subtraction form: exactly two arguments (else an arity-error value,
/// code -5, with nothing evaluated), then binary64 subtraction.
pub fn builtin_sub(env: &mut ExecutionEnv, params: Vec<Literal>, fuel: u64) -> (r: Option<Literal>)
    ensures
        apply(old(env)@, ExecV::Builtin(2), lits_view(params@), fuel as nat) is Some <==> r
            is Some,
        r is Some ==> final(env)@ == (apply(
            old(env)@,
            ExecV::Builtin(2),
            lits_view(params@),
            fuel as nat,
        )->0).0,
        r is Some ==> (r->0)@ == (apply(
            old(env)@,
            ExecV::Builtin(2),
            lits_view(params@),
            fuel as nat,
        )->0).1,
    decreases fuel, lits_view(params@), 1int,
{
    let ghost argsv = lits_view(params@);
    proof {
        lemma_lits_view(params@);
    }
    if params.len() != 2 {
        return Some(
            Literal::ErrVal("Input Error: Operation '-' requires 2 arguments".to_owned(), -5),
        );
    }
    let res = evaluate_args(env, params, fuel);
    match res {
        None => None,
        Some(vals) => {
            proof {
                lemma_eval_args_len(old(env)@, argsv, fuel as nat);
                lemma_lits_view(vals@);
            }
            let mut v = vals;
            let b = v.pop();
            let a = v.pop();
            match (a, b) {
                (Some(x), Some(y)) => Some(lit_sub(x, y)),
                _ => {
                    proof {
                        assert(false);
                    }
                    None
                },
            }
        },
    }
}

/// The multiplication form: evaluates every argument and folds binary64
/// multiplication over the results, starting from one.
pub fn builtin_mul(env: &mut ExecutionEnv, params: Vec<Literal>, fuel: u64) -> (r: Option<Literal>)
    ensures
        apply(old(env)@, ExecV::Builtin(3), lits_view(params@), fuel as nat) is Some <==> r
            is Some,
        r is Some ==> final(env)@ == (apply(
            old(env)@,
            ExecV::Builtin(3),
            lits_view(params@),
            fuel as nat,
        )->0).0,
        r is Some ==> (r->0)@ == (apply(
            old(env)@,
            ExecV::Builtin(3),
            lits_view(params@),
            fuel as nat,
        )->0).1,
    decreases fuel, lits_view(params@), 1int,
{
    let res = evaluate_args(env, params, fuel);
    match res {
        None => None,
        Some(vals) => {
            let ghost vsv = lits_view(vals@);
            proof {
                lemma_lits_view(vals@);
            }
            let mut acc = Literal::Num(0x3FF0000000000000u64);
            let n = vals.len();
            let mut i: usize = 0;
            proof {
                assert(vsv.skip(0) =~= vsv);
            }
            while i < n
                invariant
                    n == vals.len(),
                    i <= n,
                    vsv == lits_view(vals@),
                    vsv.len() == n,
                    forall|j: int| 0 <= j < n ==> #[trigger] vsv[j] == lit_view(vals@[j]),
                    fold_mul_v(acc@, vsv.skip(i as int)) == fold_mul_v(
                        LitV::Num(one_bits()),
                        vsv,
                    ),
                decreases n - i,
            {
                proof {
                    assert(vsv.skip(i as int)[0] == vsv[i as int]);
                    assert(vsv.skip(i as int).drop_first() =~= vsv.skip(i as int + 1));
                }
                let x = (&vals[i]).duplicate();
                acc = lit_mul(acc, x);
                i = i + 1;
            }
            proof {
                assert(vsv.skip(n as int) =~= Seq::<LitV>::empty());
            }
            Some(acc)
        },
    }
}

/// The division form: exactly two arguments (else an arity-error value,
/// code -5, with nothing evaluated), then binary64 division.  Division by
/// zero yields what IEEE-754 yields, not an error.
pub fn builtin_div(env: &mut ExecutionEnv, params: Vec<Literal>, fuel: u64) -> (r: Option<Literal>)
    ensures
        apply(old(env)@, ExecV::Builtin(4), lits_view(params@), fuel as nat) is Some <==> r
            is Some,
        r is Some ==> final(env)@ == (apply(
            old(env)@,
            ExecV::Builtin(4),
            lits_view(params@),
            fuel as nat,
        )->0).0,
        r is Some ==> (r->0)@ == (apply(
            old(env)@,
            ExecV::Builtin(4),
            lits_view(params@),
            fuel as nat,
        )->0).1,
    decreases fuel, lits_view(params@), 1int,
{
    let ghost argsv = lits_view(params@);
    proof {
        lemma_lits_view(params@);
    }
    if params.len() != 2 {
        return Some(
            Literal::ErrVal("Input Error: Operation '/' requires 2 arguments".to_owned(), -5),
        );
    }
    let res = evaluate_args(env, params, fuel);
    match res {
        None => None,
        Some(vals) => {
            proof {
                lemma_eval_args_len(old(env)@, argsv, fuel as nat);
                lemma_lits_view(vals@);
            }
            let mut v = vals;
            let b = v.pop();
            let a = v.pop();
            match (a, b) {
                (Some(x), Some(y)) => Some(lit_div(x, y)),
                _ => {
                    proof {
                        assert(false);
                    }
                    None
                },
            }
        },
    }
}

/// The function-definition form: three unevaluated arguments — a name, a
/// literal list of parameter names and one body — register a closure in
/// the current scope and the form returns its own name.
pub fn builtin_fn(env: &mut ExecutionEnv, params: Vec<Literal>, fuel: u64) -> (r: Option<Literal>)
    ensures
        apply(old(env)@, ExecV::Builtin(5), lits_view(params@), fuel as nat) is Some <==> r
            is Some,
        r is Some ==> final(env)@ == (apply(
            old(env)@,
            ExecV::Builtin(5),
            lits_view(params@),
            fuel as nat,
        )->0).0,
        r is Some ==> (r->0)@ == (apply(
            old(env)@,
            ExecV::Builtin(5),
            lits_view(params@),
            fuel as nat,
        )->0).1,
{
    let ghost argsv = lits_view(params@);
    proof {
        lemma_lits_view(params@);
    }
    if params.len() != 3 {
        return Some(Literal::ErrVal("Input Error: form 'fn' requires 3 arguments".to_owned(), -5));
    }
    let mut p = params;
    let name = p.remove(0);
    let args_lit = p.remove(0);
    let body = p.remove(0);
    proof {
        assert(name@ == argsv[0]);
        assert(args_lit@ == argsv[1]);
        assert(body@ == argsv[2]);
    }
    match args_lit {
        Literal::List(ps_lits) => {
            let ghost psv = lits_view(ps_lits@);
            proof {
                lemma_lits_view(ps_lits@);
            }
            let mut names: Vec<String> = Vec::new();
            let n = ps_lits.len();
            let mut i: usize = 0;
            while i < n
                invariant
                    n == ps_lits.len(),
                    i <= n,
                    psv == lits_view(ps_lits@),
                    psv.len() == n,
                    forall|j: int| 0 <= j < n ==> #[trigger] psv[j] == lit_view(ps_lits@[j]),
                    names@.len() == i,
                    forall|j: int| 0 <= j < i ==> (#[trigger] names@[j])@ == print_v(psv[j]),
                decreases n - i,
            {
                let s = (&ps_lits[i]).print();
                names.push(s);
                i = i + 1;
            }
            let fname = name.print();
            proof {
                assert(strings_view(names@) =~= psv.map_values(|q: LitV| print_v(q)));
            }
            env.add_function(fname, Executable::LispClosure(names, body));
            proof {
                assert(env@ =~~= apply_defn(old(env)@, argsv).0);
            }
            Some(name)
        },
        _ => Some(
            Literal::ErrVal("Input Error: form 'fn' requires list of argument names".to_owned(), -5),
        ),
    }
}


} // verus!
