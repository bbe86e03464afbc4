//! Lexical environments and the evaluator.
//!
//! The whole evaluator is modelled by the pure, fuel-indexed interpreter
//! `eval` below, and the executable evaluator is proved to return exactly
//! what `eval` returns.  Running out of fuel (`None`) is the fatal
//! resource-exhaustion outcome, kept distinct from every data-level error
//! value.
//!
//! Two behaviours are hardened relative to the lineage of this design, and
//! both are stated by `eval`: looking up an unbound variable yields an
//! error value (code -2) instead of a host failure, and dispatching a
//! builtin index outside the table yields an error value (code -3).  The
//! scoping asymmetry of the design is kept as it is: variable lookup reads
//! the current scope only, function lookup walks the parent chain, and a
//! closure call binds its parameters into the caller's scope rather than a
//! fresh child frame, with positional binding truncated to the shorter of
//! the parameter and argument lists.
use vstd::prelude::*;
use vstd::string::StringExecFns;
use crate::liblisp::{
    lemma_lits_view, lit_add_v, lit_div_v, lit_mul_v, lit_sub_v, lit_view, lits_view, print_v,
    LitV, Literal,
};
use crate::strmap::StrMap;

verus! {

/// What a function name is bound to: an index into the fixed builtin
/// table, or a user-defined closure of parameter names and one body.
#[derive(Debug, PartialEq)]
pub enum Executable {
    Builtin(i64),
    LispClosure(Vec<String>, Literal),
}

/// The mathematical value of an `Executable`.
pub enum ExecV {
    Builtin(int),
    Closure(Seq<Seq<char>>, LitV),
}

/// The mathematical values of a sequence of strings.
pub open spec fn strings_view(s: Seq<String>) -> Seq<Seq<char>> {
    s.map_values(|x: String| x@)
}

impl View for Executable {
    type V = ExecV;

    open spec fn view(&self) -> ExecV {
        match self {
            Executable::Builtin(i) => ExecV::Builtin(*i as int),
            Executable::LispClosure(ps, b) => ExecV::Closure(strings_view(ps@), lit_view(*b)),
        }
    }
}

impl Executable {
    /// A structurally equal copy.
    pub fn duplicate(&self) -> (r: Executable)
        ensures
            r@ == self@,
    {
        match self {
            Executable::Builtin(i) => Executable::Builtin(*i),
            Executable::LispClosure(ps, b) => {
                let mut v: Vec<String> = Vec::new();
                let n = ps.len();
                let mut i: usize = 0;
                while i < n
                    invariant
                        n == ps.len(),
                        i <= n,
                        v@.len() == i,
                        forall|j: int| 0 <= j < i ==> (#[trigger] v@[j])@ == ps@[j]@,
                    decreases n - i,
                {
                    let s = ps[i].clone();
                    v.push(s);
                    i = i + 1;
                }
                let body = b.duplicate();
                proof {
                    assert(strings_view(v@) =~= strings_view(ps@));
                }
                Executable::LispClosure(v, body)
            },
        }
    }
}

/// One lexical scope, mathematically: its permission tag, its variable
/// bindings and its function bindings.
#[verifier::ext_equal]
pub struct FrameV {
    pub permission: int,
    pub vals: Map<Seq<char>, LitV>,
    pub funcs: Map<Seq<char>, ExecV>,
}

/// One lexical scope: a permission tag (stored, not yet interpreted), an
/// optional parent scope, variable bindings and function bindings.
pub struct ExecutionEnv {
    permission: i64,
    parent: Option<Box<ExecutionEnv>>,
    defined_vals: StrMap<Literal>,
    defined_funcs: StrMap<Executable>,
}

/// The chain of scopes an environment holds, current scope first.
pub closed spec fn env_frames(e: ExecutionEnv) -> Seq<FrameV>
    decreases e,
{
    seq![
        FrameV {
            permission: e.permission as int,
            vals: e.defined_vals@,
            funcs: e.defined_funcs@,
        },
    ] + (match e.parent {
        Some(p) => env_frames(*p),
        None => Seq::<FrameV>::empty(),
    })
}

impl View for ExecutionEnv {
    type V = Seq<FrameV>;

    open spec fn view(&self) -> Seq<FrameV> {
        env_frames(*self)
    }
}

/// The function bound to `s`, searching the current scope first and then
/// each ancestor in turn.
pub open spec fn lookup_fun_name(env: Seq<FrameV>, s: Seq<char>) -> Option<ExecV>
    decreases env.len(),
{
    if env.len() == 0 {
        None
    } else if env[0].funcs.contains_key(s) {
        Some(env[0].funcs[s])
    } else {
        lookup_fun_name(env.drop_first(), s)
    }
}

/// Resolving an operator value to a function: the operator must be an
/// atom naming a bound function; anything else is an error value with
/// code 3.
pub open spec fn lookup_fun(env: Seq<FrameV>, v: LitV) -> Result<ExecV, LitV> {
    match v {
        LitV::Atom(s) => match lookup_fun_name(env, s) {
            Some(e) => Ok(e),
            None => Err(LitV::ErrVal(print_v(v) + " is not a recognized function name"@, 3)),
        },
        _ => Err(LitV::ErrVal(print_v(v) + " is not a recognized function name"@, 3)),
    }
}

/// The first `n` positional parameter bindings, a later binding for the
/// same name shadowing an earlier one.
pub open spec fn binds_upto(ps: Seq<Seq<char>>, vs: Seq<LitV>, n: int) -> Map<Seq<char>, LitV>
    decreases n,
{
    if n <= 0 {
        Map::empty()
    } else {
        binds_upto(ps, vs, n - 1).insert(ps[n - 1], vs[n - 1])
    }
}

/// Folding binary64 addition over evaluated operands.
pub open spec fn fold_add_v(acc: LitV, vals: Seq<LitV>) -> LitV
    decreases vals.len(),
{
    if vals.len() == 0 {
        acc
    } else {
        fold_add_v(lit_add_v(acc, vals[0]), vals.drop_first())
    }
}

/// Folding binary64 multiplication over evaluated operands.
pub open spec fn fold_mul_v(acc: LitV, vals: Seq<LitV>) -> LitV
    decreases vals.len(),
{
    if vals.len() == 0 {
        acc
    } else {
        fold_mul_v(lit_mul_v(acc, vals[0]), vals.drop_first())
    }
}

/// The bits of binary64 one, the unit of the multiplication fold.
pub open spec fn one_bits() -> u64 {
    0x3FF0000000000000u64
}

/// The effect of the function-definition form on unevaluated arguments: a
/// name, a literal list of parameter names and one body expression
/// register a closure in the current scope's function bindings, and the
/// form returns its own name.
pub open spec fn apply_defn(env: Seq<FrameV>, args: Seq<LitV>) -> (Seq<FrameV>, LitV) {
    if args.len() != 3 {
        (env, LitV::ErrVal("Input Error: form 'fn' requires 3 arguments"@, -5))
    } else {
        match args[1] {
            LitV::List(ps) => {
                let names = ps.map_values(|p: LitV| print_v(p));
                let frame = FrameV {
                    funcs: env[0].funcs.insert(print_v(args[0]), ExecV::Closure(names, args[2])),
                    ..env[0]
                };
                (env.update(0, frame), args[0])
            },
            _ => (env, LitV::ErrVal("Input Error: form 'fn' requires list of argument names"@, -5)),
        }
    }
}

/// One step of evaluation: strings, numbers and errors are
/// self-evaluating; an atom is read from the current scope's variable
/// bindings only (an unbound name yields an error value, code -2); the
/// empty list evaluates to the atom `null`; a nonempty list evaluates its
/// operator position (recursively, when it is itself a list), resolves it
/// to a function, and applies that function to the unevaluated remaining
/// elements.  `None` is the fatal out-of-fuel outcome.
pub open spec fn eval(env: Seq<FrameV>, e: LitV, fuel: nat) -> Option<(Seq<FrameV>, LitV)>
    decreases fuel, e, 3int,
{
    match e {
        LitV::Str(_) => Some((env, e)),
        LitV::Num(_) => Some((env, e)),
        LitV::ErrVal(_, _) => Some((env, e)),
        LitV::Atom(s) => Some(
            (
                env,
                if env.len() > 0 && env[0].vals.contains_key(s) {
                    env[0].vals[s]
                } else {
                    LitV::ErrVal(s + " is not bound in the current scope"@, -2)
                },
            ),
        ),
        LitV::List(l) => if l.len() == 0 {
            Some((env, LitV::Atom("null"@)))
        } else if l[0] is List {
            match eval(env, l[0], fuel) {
                None => None,
                Some(p) => dispatch(p.0, p.1, l.drop_first(), fuel),
            }
        } else {
            dispatch(env, l[0], l.drop_first(), fuel)
        },
    }
}

/// Resolving an evaluated operator and applying it.
pub open spec fn dispatch(env: Seq<FrameV>, opv: LitV, args: Seq<LitV>, fuel: nat) -> Option<
    (Seq<FrameV>, LitV),
>
    decreases fuel, args, 2int,
{
    match lookup_fun(env, opv) {
        Ok(ex) => apply(env, ex, args, fuel),
        Err(e) => Some((env, e)),
    }
}

/// Applying a resolved function to its unevaluated arguments.  Each
/// builtin decides its own evaluation: the sequencing form and the folds
/// evaluate everything, the binary operators check their arity before
/// evaluating anything, and the definition form evaluates nothing.  A
/// closure evaluates its arguments, binds them positionally into the
/// current scope (truncating to the shorter list) and then evaluates its
/// body, spending one unit of fuel.
pub open spec fn apply(env: Seq<FrameV>, ex: ExecV, args: Seq<LitV>, fuel: nat) -> Option<
    (Seq<FrameV>, LitV),
>
    decreases fuel, args, 1int,
{
    match ex {
        ExecV::Builtin(i) => {
            if i == 0 {
                match eval_args(env, args, fuel) {
                    None => None,
                    Some(p) => Some(
                        (
                            p.0,
                            if args.len() == 0 {
                                LitV::ErrVal("Form progn requires at least one argument"@, -1)
                            } else {
                                p.1.last()
                            },
                        ),
                    ),
                }
            } else if i == 1 {
                match eval_args(env, args, fuel) {
                    None => None,
                    Some(p) => Some((p.0, fold_add_v(LitV::Num(0), p.1))),
                }
            } else if i == 2 {
                if args.len() != 2 {
                    Some((env, LitV::ErrVal("Input Error: Operation '-' requires 2 arguments"@, -5)))
                } else {
                    match eval_args(env, args, fuel) {
                        None => None,
                        Some(p) => Some((p.0, lit_sub_v(p.1[0], p.1[1]))),
                    }
                }
            } else if i == 3 {
                match eval_args(env, args, fuel) {
                    None => None,
                    Some(p) => Some((p.0, fold_mul_v(LitV::Num(one_bits()), p.1))),
                }
            } else if i == 4 {
                if args.len() != 2 {
                    Some((env, LitV::ErrVal("Input Error: Operation '/' requires 2 arguments"@, -5)))
                } else {
                    match eval_args(env, args, fuel) {
                        None => None,
                        Some(p) => Some((p.0, lit_div_v(p.1[0], p.1[1]))),
                    }
                }
            } else if i == 5 {
                Some(apply_defn(env, args))
            } else {
                Some((env, LitV::ErrVal("Evaluation Error: builtin index out of range"@, -3)))
            }
        },
        ExecV::Closure(ps, body) => {
            if fuel == 0 {
                None
            } else {
                match eval_args(env, args, fuel) {
                    None => None,
                    Some(p) => {
                        let n = if ps.len() <= p.1.len() {
                            ps.len() as int
                        } else {
                            p.1.len() as int
                        };
                        let frame = FrameV {
                            vals: p.0[0].vals.union_prefer_right(binds_upto(ps, p.1, n)),
                            ..p.0[0]
                        };
                        eval(p.0.update(0, frame), body, (fuel - 1) as nat)
                    },
                }
            }
        },
    }
}

/// Evaluating a sequence of argument expressions left to right, threading
/// the environment through.
pub open spec fn eval_args(env: Seq<FrameV>, args: Seq<LitV>, fuel: nat) -> Option<
    (Seq<FrameV>, Seq<LitV>),
>
    decreases fuel, args, 0int,
{
    if args.len() == 0 {
        Some((env, Seq::empty()))
    } else {
        match eval(env, args[0], fuel) {
            None => None,
            Some(p) => match eval_args(p.0, args.drop_first(), fuel) {
                None => None,
                Some(q) => Some((q.0, seq![p.1] + q.1)),
            },
        }
    }
}

/// `eval_args` yields one value for each argument.
pub proof fn lemma_eval_args_len(env: Seq<FrameV>, args: Seq<LitV>, fuel: nat)
    requires
        eval_args(env, args, fuel) is Some,
    ensures
        (eval_args(env, args, fuel)->0).1.len() == args.len(),
    decreases args.len(),
{
    if args.len() > 0 {
        let p = eval(env, args[0], fuel)->0;
        lemma_eval_args_len(p.0, args.drop_first(), fuel);
    }
}

/// The current scope of an environment and its chain of ancestors.
proof fn lemma_env_frames(e: ExecutionEnv)
    ensures
        env_frames(e).len() >= 1,
        env_frames(e)[0] == (FrameV {
            permission: e.permission as int,
            vals: e.defined_vals@,
            funcs: e.defined_funcs@,
        }),
        e.parent is Some ==> env_frames(e).drop_first() == env_frames(*e.parent->0),
        e.parent is None ==> env_frames(e).len() == 1,
{
    match e.parent {
        Some(p) => {
            assert(env_frames(e).drop_first() =~= env_frames(*p));
        },
        None => {},
    }
}

/// The scope chain of a fresh root environment.
pub open spec fn root_frames() -> Seq<FrameV> {
    seq![
        FrameV {
            permission: 0,
            vals: Map::<Seq<char>, LitV>::empty(),
            funcs: crate::liblisp::builtins_map(),
        },
    ]
}

impl ExecutionEnv {
    /// A child scope of `par` with the given tag and bindings.
    pub fn new(permnum: i64, par: ExecutionEnv, vals: StrMap<Literal>, funcs: StrMap<
        Executable,
    >) -> (r: Self)
        ensures
            r@ == seq![FrameV { permission: permnum as int, vals: vals@, funcs: funcs@ }] + par@,
    {
        let ghost pv = par@;
        let r = Self {
            permission: permnum,
            parent: Some(Box::new(par)),
            defined_vals: vals,
            defined_funcs: funcs,
        };
        proof {
            assert(r@ =~= seq![
                FrameV { permission: permnum as int, vals: vals@, funcs: funcs@ },
            ] + pv);
        }
        r
    }

    /// The root scope: no parent, no variables, and the builtin table as
    /// its function bindings.
    pub fn root() -> (r: Self)
        ensures
            r@ == root_frames(),
    {
        let funcs = crate::liblisp::builtins_table();
        let r = Self {
            permission: 0,
            parent: None,
            defined_vals: StrMap::new(),
            defined_funcs: funcs,
        };
        proof {
            assert(r@ =~= seq![
                FrameV {
                    permission: 0,
                    vals: Map::<Seq<char>, LitV>::empty(),
                    funcs: crate::liblisp::builtins_map(),
                },
            ]);
        }
        r
    }

    /// Registers a function in the current scope's function bindings.
    pub fn add_function(&mut self, func_name: String, func: Executable)
        ensures
            final(self)@ == old(self)@.update(
                0,
                FrameV {
                    funcs: old(self)@[0].funcs.insert(func_name@, func@),
                    ..old(self)@[0]
                },
            ),
    {
        proof {
            lemma_env_frames(*self);
        }
        let ghost oldframes = self@;
        let ghost kview = func_name@;
        let ghost fview = func@;
        self.defined_funcs.insert(func_name, func);
        proof {
            lemma_env_frames(*self);
            assert(self@ =~~= oldframes.update(
                0,
                FrameV { funcs: oldframes[0].funcs.insert(kview, fview), ..oldframes[0] },
            ));
        }
    }

    /// The parent scope.  The root scope has none, and asking for it is
    /// outside this function's contract.
    pub fn get_parent(&self) -> (r: &ExecutionEnv)
        requires
            self@.len() > 1,
        ensures
            r@ == self@.drop_first(),
    {
        proof {
            lemma_env_frames(*self);
        }
        match &self.parent {
            Some(p) => &**p,
            None => {
                proof {
                    assert(false);
                }
                self
            },
        }
    }

    /// Merges variable bindings into the current scope, the new bindings
    /// winning on shared names.
    pub fn add_binds(&mut self, binds: StrMap<Literal>)
        ensures
            final(self)@ == old(self)@.update(
                0,
                FrameV {
                    vals: old(self)@[0].vals.union_prefer_right(binds@),
                    ..old(self)@[0]
                },
            ),
    {
        proof {
            lemma_env_frames(*self);
        }
        let ghost oldframes = self@;
        let ghost bview = binds@;
        self.defined_vals.merge(binds);
        proof {
            lemma_env_frames(*self);
            assert(self@ =~~= oldframes.update(
                0,
                FrameV { vals: oldframes[0].vals.union_prefer_right(bview), ..oldframes[0] },
            ));
        }
    }

    /// Resolves an operator value to a function, walking the parent chain,
    /// exactly as `lookup_fun` states.
    pub fn lookup_function(&self, val: &Literal) -> (r: Result<Executable, Literal>)
        ensures
            match r {
                Ok(ex) => lookup_fun(self@, val@) is Ok && ex@ == lookup_fun(self@, val@)->Ok_0,
                Err(e) => lookup_fun(self@, val@) is Err && e@ == lookup_fun(self@, val@)->Err_0,
            },
        decreases *self,
    {
        proof {
            lemma_env_frames(*self);
        }
        match val {
            Literal::Atom(s) => {
                match self.defined_funcs.get(s) {
                    Some(e) => {
                        let d = e.duplicate();
                        proof {
                            assert(lookup_fun_name(self@, s@) == Some(self@[0].funcs[s@]));
                            assert(lookup_fun(self@, val@) == Ok::<ExecV, LitV>(
                                self@[0].funcs[s@],
                            ));
                        }
                        Ok(d)
                    },
                    None => {
                        match &self.parent {
                            Some(p) => {
                                proof {
                                    assert(decreases_to!(*self => (*self).parent));
                                    assert(decreases_to!((*self).parent => (*self).parent->0));
                                    assert((*self).parent->0 == **p);
                                    assert(self@.drop_first() == (**p)@);
                                    assert(lookup_fun_name(self@, s@) == lookup_fun_name(
                                        (**p)@,
                                        s@,
                                    ));
                                }
                                let r = (&**p).lookup_function(val);
                                proof {
                                    assert(lookup_fun(self@, val@) == lookup_fun((**p)@, val@));
                                }
                                r
                            },
                            None => {
                                proof {
                                    assert(self@.len() == 1);
                                    assert(lookup_fun_name(self@.drop_first(), s@) is None);
                                    assert(lookup_fun_name(self@, s@) is None);
                                }
                                let mut m = val.print();
                                m.append(" is not a recognized function name");
                                Err(Literal::ErrVal(m, 3))
                            },
                        }
                    },
                }
            },
            _ => {
                let mut m = val.print();
                m.append(" is not a recognized function name");
                Err(Literal::ErrVal(m, 3))
            },
        }
    }

    /// Evaluates one expression against this environment, exactly as
    /// `eval` states; `None` reports fuel exhaustion (the fatal
    /// resource-exhaustion outcome; the environment is then mid-mutation
    /// and the caller should abandon it).
    pub fn evaluate(env: &mut ExecutionEnv, val: Literal, fuel: u64) -> (r: Option<Literal>)
        ensures
            eval(old(env)@, val@, fuel as nat) is Some <==> r is Some,
            r is Some ==> final(env)@ == (eval(old(env)@, val@, fuel as nat)->0).0,
            r is Some ==> (r->0)@ == (eval(old(env)@, val@, fuel as nat)->0).1,
        decreases fuel, val@, 3int,
    {
        proof {
            lemma_env_frames(*env);
        }
        let ghost ev = val@;
        match val {
            Literal::Str(_) => Some(val),
            Literal::Num(_) => Some(val),
            Literal::ErrVal(_, _) => Some(val),
            Literal::Atom(s) => {
                match env.defined_vals.get(&s) {
                    Some(v) => {
                        let d = v.duplicate();
                        Some(d)
                    },
                    None => {
                        let mut m = s;
                        m.append(" is not bound in the current scope");
                        Some(Literal::ErrVal(m, -2))
                    },
                }
            },
            Literal::List(mut l) => {
                proof {
                    lemma_lits_view(l@);
                }
                if l.len() == 0 {
                    Some(Literal::Atom("null".to_owned()))
                } else {
                    let ghost all = lits_view(l@);
                    let first = l.remove(0);
                    proof {
                        lemma_lits_view(l@);
                        assert(lits_view(l@) =~= all.drop_first());
                        assert(first@ == all[0]);
                    }
                    proof {
                        assert(ev == LitV::List(all));
                        assert(ev->List_0 == all);
                    }
                    let opv: Literal;
                    match &first {
                        Literal::List(_) => {
                            proof {
                                assert(decreases_to!(ev => ev->List_0));
                                assert(decreases_to!(ev->List_0 => ev->List_0[0]));
                                assert(first@ == ev->List_0[0]);
                            }
                            match Self::evaluate(env, first, fuel) {
                                None => {
                                    proof {
                                        assert(eval(old(env)@, ev, fuel as nat) is None);
                                    }
                                    return None;
                                },
                                Some(v) => {
                                    opv = v;
                                },
                            }
                        },
                        _ => {
                            opv = first;
                        },
                    }
                    proof {
                        assert(eval(old(env)@, ev, fuel as nat) == dispatch(
                            env@,
                            opv@,
                            all.drop_first(),
                            fuel as nat,
                        ));
                    }
                    let ghost env1 = env@;
                    match env.lookup_function(&opv) {
                        Err(e) => {
                            proof {
                                assert(dispatch(env1, opv@, all.drop_first(), fuel as nat)
                                    == Some((env1, e@)));
                            }
                            Some(e)
                        },
                        Ok(ex) => {
                            proof {
                                assert(dispatch(env1, opv@, all.drop_first(), fuel as nat) == apply(
                                    env1,
                                    ex@,
                                    all.drop_first(),
                                    fuel as nat,
                                ));
                                assert(decreases_to!(ev => ev->List_0));
                                assert(decreases_to!(ev->List_0 => ev->List_0.drop_first()));
                                assert(lits_view(l@) == ev->List_0.drop_first());
                            }
                            ex.evaluate_with(env, l, fuel)
                        },
                    }
                }
            },
        }
    }
}

/// Evaluates each argument in order, threading the environment through,
/// exactly as `eval_args` states.
pub fn evaluate_args(env: &mut ExecutionEnv, params: Vec<Literal>, fuel: u64) -> (r: Option<
    Vec<Literal>,
>)
    ensures
        eval_args(old(env)@, lits_view(params@), fuel as nat) is Some <==> r is Some,
        r is Some ==> final(env)@ == (eval_args(old(env)@, lits_view(params@), fuel as nat)->0).0,
        r is Some ==> lits_view((r->0)@) == (eval_args(
            old(env)@,
            lits_view(params@),
            fuel as nat,
        )->0).1,
    decreases fuel, lits_view(params@), 0int,
{
    let ghost all = lits_view(params@);
    let ghost env0 = env@;
    proof {
        lemma_lits_view(params@);
    }
    let mut results: Vec<Literal> = Vec::new();
    let n = params.len();
    let mut i: usize = 0;
    proof {
        assert(all.skip(0) =~= all);
        if eval_args(env@, all, fuel as nat) is Some {
            let q = eval_args(env@, all, fuel as nat)->0;
            assert(lits_view(results@) + q.1 =~= q.1);
        }
    }
    while i < n
        invariant
            n == params.len(),
            i <= n,
            env0 == old(env)@,
            all == lits_view(params@),
            all.len() == n,
            forall|j: int| 0 <= j < n ==> #[trigger] all[j] == lit_view(params@[j]),
            results@.len() == i,
            eval_args(env0, all, fuel as nat) == (match eval_args(
                env@,
                all.skip(i as int),
                fuel as nat,
            ) {
                Some(q) => Some((q.0, lits_view(results@) + q.1)),
                None => None::<(Seq<FrameV>, Seq<LitV>)>,
            }),
        decreases n - i,
    {
        proof {
            assert(all.skip(i as int)[0] == all[i as int]);
            assert(all.skip(i as int).drop_first() =~= all.skip(i as int + 1));
            assert(decreases_to!(all => all[i as int]));
        }
        let x = (&params[i]).duplicate();
        let ghost env_before = env@;
        let res = ExecutionEnv::evaluate(env, x, fuel);
        match res {
            None => {
                proof {
                    assert(eval(env_before, all[i as int], fuel as nat) is None);
                    assert(eval_args(env_before, all.skip(i as int), fuel as nat) is None);
                    assert(eval_args(env0, all, fuel as nat) is None);
                }
                return None;
            },
            Some(v) => {
                proof {
                    lemma_lits_view(results@.push(v));
                    lemma_lits_view(results@);
                    if eval_args(env@, all.skip(i as int + 1), fuel as nat) is Some {
                        let q = eval_args(env@, all.skip(i as int + 1), fuel as nat)->0;
                        assert(lits_view(results@.push(v)) =~= lits_view(results@).push(v@));
                        assert(lits_view(results@) + (seq![v@] + q.1) =~= lits_view(
                            results@.push(v),
                        ) + q.1);
                    }
                }
                results.push(v);
            },
        }
        i = i + 1;
    }
    proof {
        assert(all.skip(n as int) =~= Seq::<LitV>::empty());
    }
    Some(results)
}

impl Executable {
    /// Applies this function to unevaluated arguments against the given
    /// environment, exactly as `apply` states; `None` reports fuel
    /// exhaustion.
    pub fn evaluate_with(&self, env: &mut ExecutionEnv, params: Vec<Literal>, fuel: u64) -> (r:
        Option<Literal>)
        ensures
            apply(old(env)@, self@, lits_view(params@), fuel as nat) is Some <==> r is Some,
            r is Some ==> final(env)@ == (apply(
                old(env)@,
                self@,
                lits_view(params@),
                fuel as nat,
            )->0).0,
            r is Some ==> (r->0)@ == (apply(old(env)@, self@, lits_view(params@), fuel as nat)->0).1,
        decreases fuel, lits_view(params@), 2int,
    {
        match self {
            Executable::Builtin(num) => {
                let n = *num;
                if n == 0 {
                    crate::liblisp::builtin_progn(env, params, fuel)
                } else if n == 1 {
                    crate::liblisp::builtin_add(env, params, fuel)
                } else if n == 2 {
                    crate::liblisp::builtin_sub(env, params, fuel)
                } else if n == 3 {
                    crate::liblisp::builtin_mul(env, params, fuel)
                } else if n == 4 {
                    crate::liblisp::builtin_div(env, params, fuel)
                } else if n == 5 {
                    crate::liblisp::builtin_fn(env, params, fuel)
                } else {
                    Some(
                        Literal::ErrVal(
                            "Evaluation Error: builtin index out of range".to_owned(),
                            -3,
                        ),
                    )
                }
            },
            Executable::LispClosure(ps, body) => {
                if fuel == 0 {
                    return None;
                }
                let ghost psv = strings_view(ps@);
                let ghost argsv = lits_view(params@);
                let res = evaluate_args(env, params, fuel);
                match res {
                    None => None,
                    Some(vals) => {
                        proof {
                            lemma_eval_args_len(old(env)@, argsv, fuel as nat);
                        }
                        let ghost valsv = lits_view(vals@);
                        let nb = if ps.len() <= vals.len() {
                            ps.len()
                        } else {
                            vals.len()
                        };
                        let mut binds: StrMap<Literal> = StrMap::new();
                        let mut i: usize = 0;
                        proof {
                            lemma_lits_view(vals@);
                        }
                        while i < nb
                            invariant
                                nb <= ps@.len(),
                                nb <= vals@.len(),
                                i <= nb,
                                psv == strings_view(ps@),
                                valsv == lits_view(vals@),
                                valsv.len() == vals@.len(),
                                forall|j: int|
                                    0 <= j < vals@.len() ==> #[trigger] valsv[j] == lit_view(
                                        vals@[j],
                                    ),
                                binds@ == binds_upto(psv, valsv, i as int),
                            decreases nb - i,
                        {
                            let k = ps[i].clone();
                            let v = (&vals[i]).duplicate();
                            binds.insert(k, v);
                            i = i + 1;
                        }
                        env.add_binds(binds);
                        let b = body.duplicate();
                        proof {
                            assert(decreases_to!(fuel => fuel - 1));
                        }
                        ExecutionEnv::evaluate(env, b, fuel - 1)
                    },
                }
            },
        }
    }
}

} // verus!
