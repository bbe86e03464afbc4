//! Laws of the evaluator, each proved from the interpreter `eval` alone.
//!
//! `lemma_defn_form` and `lemma_closure_call` together state the
//! function-definition contract: a well-formed definition form registers
//! exactly the written closure under the printed name and returns the name
//! itself, and a later call of a name bound to a closure evaluates the
//! closure's body with the parameters bound positionally to the evaluated
//! arguments (truncating on a count mismatch, which is not an error).
//!
//! `lemma_pure_eval` and `lemma_pure_reeval` state the re-evaluation law:
//! a form that never names the definition form, evaluated against a scope
//! whose functions are builtins (with the definition form reachable only
//! under its own name) and whose variables hold such forms, always
//! succeeds, leaves the scope exactly as it was, and therefore evaluates
//! to the same result as often as it is repeated — in particular against a
//! fresh root scope.
use vstd::prelude::*;
use crate::env::{
    apply, apply_defn, binds_upto, dispatch, eval, eval_args, fold_add_v, fold_mul_v, lookup_fun,
    lookup_fun_name, ExecV, FrameV, root_frames,
};
use crate::liblisp::{builtins_map, lit_add_v, lit_mul_v, print_v, LitV};

verus! {

/// A well-formed definition form registers the closure and returns its
/// own name, which is the form's rendered result.
pub proof fn lemma_defn_form(
    env: Seq<FrameV>,
    name: LitV,
    params: Seq<LitV>,
    body: LitV,
    fuel: nat,
)
    requires
        env.len() > 0,
        lookup_fun_name(env, "defn"@) == Some(ExecV::Builtin(5)),
    ensures
        ({
            let form = LitV::List(seq![LitV::Atom("defn"@), name, LitV::List(params), body]);
            let names = params.map_values(|p: LitV| print_v(p));
            let frame = FrameV {
                funcs: env[0].funcs.insert(print_v(name), ExecV::Closure(names, body)),
                ..env[0]
            };
            eval(env, form, fuel) == Some((env.update(0, frame), name))
        }),
        name is Atom ==> print_v(
            (eval(
                env,
                LitV::List(seq![LitV::Atom("defn"@), name, LitV::List(params), body]),
                fuel,
            )->0).1,
        ) == name->Atom_0,
{
    let l = seq![LitV::Atom("defn"@), name, LitV::List(params), body];
    let args = l.drop_first();
    assert(args =~= seq![name, LitV::List(params), body]);
    assert(eval(env, LitV::List(l), fuel) == dispatch(env, l[0], args, fuel));
    assert(lookup_fun(env, l[0]) == Ok::<ExecV, LitV>(ExecV::Builtin(5)));
    assert(dispatch(env, l[0], args, fuel) == apply(env, ExecV::Builtin(5), args, fuel));
    assert(apply(env, ExecV::Builtin(5), args, fuel) == Some(apply_defn(env, args)));
}

/// Calling a name bound to a closure evaluates the closure's body with the
/// parameters bound positionally to the evaluated arguments, truncated to
/// the shorter of the two lists.
pub proof fn lemma_closure_call(
    env: Seq<FrameV>,
    fname: Seq<char>,
    ps: Seq<Seq<char>>,
    body: LitV,
    args: Seq<LitV>,
    fuel: nat,
)
    requires
        env.len() > 0,
        lookup_fun_name(env, fname) == Some(ExecV::Closure(ps, body)),
        fuel > 0,
        eval_args(env, args, fuel) is Some,
    ensures
        ({
            let p = eval_args(env, args, fuel)->0;
            let n = if ps.len() <= p.1.len() {
                ps.len() as int
            } else {
                p.1.len() as int
            };
            let frame = FrameV {
                vals: p.0[0].vals.union_prefer_right(binds_upto(ps, p.1, n)),
                ..p.0[0]
            };
            eval(env, LitV::List(seq![LitV::Atom(fname)] + args), fuel) == eval(
                p.0.update(0, frame),
                body,
                (fuel - 1) as nat,
            )
        }),
{
    let l = seq![LitV::Atom(fname)] + args;
    assert(l[0] == LitV::Atom(fname));
    assert(l.drop_first() =~= args);
    assert(eval(env, LitV::List(l), fuel) == dispatch(env, l[0], args, fuel));
    assert(lookup_fun(env, l[0]) == Ok::<ExecV, LitV>(ExecV::Closure(ps, body)));
}

/// A form that never names the definition form.
pub open spec fn defn_free(e: LitV) -> bool
    decreases e,
{
    match e {
        LitV::Atom(s) => s != "defn"@,
        LitV::List(l) => defn_free_seq(l),
        _ => true,
    }
}

/// A sequence of forms none of which names the definition form.
pub open spec fn defn_free_seq(s: Seq<LitV>) -> bool
    decreases s,
{
    if s.len() == 0 {
        true
    } else {
        defn_free(s[0]) && defn_free_seq(s.drop_first())
    }
}

/// Every form of the sequence is free of the definition form.
pub proof fn lemma_defn_free_seq(s: Seq<LitV>)
    requires
        defn_free_seq(s),
    ensures
        forall|i: int| 0 <= i < s.len() ==> defn_free(#[trigger] s[i]),
    decreases s.len(),
{
    if s.len() > 0 {
        lemma_defn_free_seq(s.drop_first());
        assert forall|i: int| 0 <= i < s.len() implies defn_free(#[trigger] s[i]) by {
            if i > 0 {
                assert(s.drop_first()[i - 1] == s[i]);
            }
        }
    }
}

/// Every function the scope chain can resolve is a builtin, and only the
/// name `defn` can reach the definition form.
pub open spec fn pure_funcs(env: Seq<FrameV>) -> bool {
    forall|i: int, s: Seq<char>|
        0 <= i < env.len() && #[trigger] env[i].funcs.contains_key(s) ==> env[i].funcs[s] is Builtin
            && (env[i].funcs[s]->Builtin_0 == 5 ==> s == "defn"@)
}

/// Every variable of the scope chain holds a form free of the definition
/// form.
pub open spec fn pure_vals(env: Seq<FrameV>) -> bool {
    forall|i: int, s: Seq<char>|
        0 <= i < env.len() && #[trigger] env[i].vals.contains_key(s) ==> defn_free(
            env[i].vals[s],
        )
}

/// What function lookup can return under `pure_funcs`.
proof fn lemma_lookup_pure(env: Seq<FrameV>, s: Seq<char>)
    requires
        pure_funcs(env),
        lookup_fun_name(env, s) is Some,
    ensures
        lookup_fun_name(env, s)->0 is Builtin,
        lookup_fun_name(env, s)->0->Builtin_0 == 5 ==> s == "defn"@,
    decreases env.len(),
{
    if env.len() > 0 && !env[0].funcs.contains_key(s) {
        assert forall|i: int, q: Seq<char>|
            0 <= i < env.drop_first().len() && #[trigger] env.drop_first()[i].funcs.contains_key(
                q,
            ) implies env.drop_first()[i].funcs[q] is Builtin && (
        env.drop_first()[i].funcs[q]->Builtin_0 == 5 ==> q == "defn"@) by {
            assert(env.drop_first()[i] == env[i + 1]);
        }
        lemma_lookup_pure(env.drop_first(), s);
    }
}

/// Folding addition over any operands yields a number or an error value.
proof fn lemma_fold_add_shape(acc: LitV, vals: Seq<LitV>)
    requires
        acc is Num || acc is ErrVal,
    ensures
        fold_add_v(acc, vals) is Num || fold_add_v(acc, vals) is ErrVal,
    decreases vals.len(),
{
    if vals.len() > 0 {
        lemma_fold_add_shape(lit_add_v(acc, vals[0]), vals.drop_first());
    }
}

/// Folding multiplication over any operands yields a number or an error
/// value.
proof fn lemma_fold_mul_shape(acc: LitV, vals: Seq<LitV>)
    requires
        acc is Num || acc is ErrVal,
    ensures
        fold_mul_v(acc, vals) is Num || fold_mul_v(acc, vals) is ErrVal,
    decreases vals.len(),
{
    if vals.len() > 0 {
        lemma_fold_mul_shape(lit_mul_v(acc, vals[0]), vals.drop_first());
    }
}

/// Evaluating a form free of the definition form against a pure scope
/// always succeeds, leaves the scope exactly as it was, and yields a value
/// that is itself free of the definition form.
pub proof fn lemma_pure_eval(env: Seq<FrameV>, e: LitV, fuel: nat)
    requires
        pure_funcs(env),
        pure_vals(env),
        defn_free(e),
    ensures
        eval(env, e, fuel) is Some,
        (eval(env, e, fuel)->0).0 == env,
        defn_free((eval(env, e, fuel)->0).1),
    decreases fuel, e, 3int,
{
    match e {
        LitV::Atom(s) => {
            if env.len() > 0 && env[0].vals.contains_key(s) {
                assert(defn_free(env[0].vals[s]));
            }
        },
        LitV::List(l) => {
            if l.len() == 0 {
                proof_of_null_atom();
            } else {
                lemma_defn_free_seq(l);
                assert forall|i: int|
                    0 <= i < l.drop_first().len() implies defn_free(
                    #[trigger] l.drop_first()[i],
                ) by {
                    assert(l.drop_first()[i] == l[i + 1]);
                }
                if l[0] is List {
                    lemma_pure_eval(env, l[0], fuel);
                    let p = eval(env, l[0], fuel)->0;
                    lemma_pure_dispatch(env, p.1, l.drop_first(), fuel);
                } else {
                    lemma_pure_dispatch(env, l[0], l.drop_first(), fuel);
                }
            }
        },
        _ => {},
    }
}

/// The atom the empty list evaluates to does not name the definition form.
proof fn proof_of_null_atom()
    ensures
        defn_free(LitV::Atom("null"@)),
{
    reveal_strlit("null");
    reveal_strlit("defn");
    assert("null"@.len() == 4 && "defn"@.len() == 4);
    assert("null"@[0] == 'n' && "defn"@[0] == 'd');
    assert("null"@ != "defn"@);
}

/// Dispatching a pure operator over pure arguments succeeds, preserves the
/// scope and yields a pure value.
proof fn lemma_pure_dispatch(env: Seq<FrameV>, opv: LitV, args: Seq<LitV>, fuel: nat)
    requires
        pure_funcs(env),
        pure_vals(env),
        defn_free(opv),
        forall|i: int| 0 <= i < args.len() ==> defn_free(#[trigger] args[i]),
    ensures
        dispatch(env, opv, args, fuel) is Some,
        (dispatch(env, opv, args, fuel)->0).0 == env,
        defn_free((dispatch(env, opv, args, fuel)->0).1),
    decreases fuel, args, 2int,
{
    match lookup_fun(env, opv) {
        Ok(ex) => {
            let s = opv->Atom_0;
            lemma_lookup_pure(env, s);
            assert(ex is Builtin);
            assert(ex->Builtin_0 != 5);
            lemma_pure_apply(env, ex, args, fuel);
        },
        Err(_) => {},
    }
}

/// Applying a builtin other than the definition form over pure arguments
/// succeeds, preserves the scope and yields a pure value.
proof fn lemma_pure_apply(env: Seq<FrameV>, ex: ExecV, args: Seq<LitV>, fuel: nat)
    requires
        pure_funcs(env),
        pure_vals(env),
        ex is Builtin,
        ex->Builtin_0 != 5,
        forall|i: int| 0 <= i < args.len() ==> defn_free(#[trigger] args[i]),
    ensures
        apply(env, ex, args, fuel) is Some,
        (apply(env, ex, args, fuel)->0).0 == env,
        defn_free((apply(env, ex, args, fuel)->0).1),
    decreases fuel, args, 1int,
{
    let i = ex->Builtin_0;
    if i == 0 || i == 1 || i == 3 || ((i == 2 || i == 4) && args.len() == 2) {
        lemma_pure_eval_args(env, args, fuel);
        let p = eval_args(env, args, fuel)->0;
        if i == 1 {
            lemma_fold_add_shape(LitV::Num(0), p.1);
        }
        if i == 3 {
            lemma_fold_mul_shape(LitV::Num(crate::env::one_bits()), p.1);
        }
    }
}

/// Evaluating pure arguments in order succeeds, preserves the scope and
/// yields pure values.
proof fn lemma_pure_eval_args(env: Seq<FrameV>, args: Seq<LitV>, fuel: nat)
    requires
        pure_funcs(env),
        pure_vals(env),
        forall|i: int| 0 <= i < args.len() ==> defn_free(#[trigger] args[i]),
    ensures
        eval_args(env, args, fuel) is Some,
        (eval_args(env, args, fuel)->0).0 == env,
        forall|i: int|
            0 <= i < (eval_args(env, args, fuel)->0).1.len() ==> defn_free(
                #[trigger] (eval_args(env, args, fuel)->0).1[i],
            ),
    decreases fuel, args, 0int,
{
    if args.len() > 0 {
        lemma_pure_eval(env, args[0], fuel);
        assert forall|i: int|
            0 <= i < args.drop_first().len() implies defn_free(
            #[trigger] args.drop_first()[i],
        ) by {
            assert(args.drop_first()[i] == args[i + 1]);
        }
        lemma_pure_eval_args(env, args.drop_first(), fuel);
    }
}

/// Re-evaluating a form free of the definition form against a pure scope
/// is idempotent: the first evaluation hands the scope back untouched, so
/// evaluating the same form again — as against a fresh root scope each
/// time — yields the identical result.
pub proof fn lemma_pure_reeval(env: Seq<FrameV>, e: LitV, fuel: nat)
    requires
        pure_funcs(env),
        pure_vals(env),
        defn_free(e),
    ensures
        eval(env, e, fuel) is Some,
        (eval(env, e, fuel)->0).0 == env,
        eval((eval(env, e, fuel)->0).0, e, fuel) == eval(env, e, fuel),
{
    lemma_pure_eval(env, e, fuel);
}

/// A fresh root scope is pure: its functions are exactly the builtins,
/// with the definition form under its own name only, and it has no
/// variables at all.
pub proof fn lemma_root_pure()
    ensures
        pure_funcs(root_frames()),
        pure_vals(root_frames()),
{
    reveal_strlit("progn");
    reveal_strlit("+");
    reveal_strlit("-");
    reveal_strlit("*");
    reveal_strlit("/");
    reveal_strlit("defn");
    let m = builtins_map();
    assert forall|s: Seq<char>| #[trigger] m.contains_key(s) implies m[s] is Builtin && (
    m[s]->Builtin_0 == 5 ==> s == "defn"@) by {
        if s != "defn"@ && s != "progn"@ && s != "+"@ && s != "-"@ && s != "*"@ && s != "/"@ {
            assert(!m.contains_key(s));
        }
    }
}

} // verus!
