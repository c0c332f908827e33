//! Laws of the language, stated over the spec-level semantics.
//!
//! Each law here is proved once and for all inputs; the numeric halves of the
//! same properties (what a term reduces to as a machine number) live with the
//! drivers, since this crate never computes with numbers.

use vstd::prelude::*;

use crate::ast::ExprS;
use crate::env::{EnvS, FnDefS};
use crate::eval::{ErrS, EvalOut, spec_eval};
use crate::parse::spec_parse;
use crate::term::TermS;
use crate::token::{TokKindS, TokS, is_literal_text, lemma_tokenize_literal, spec_tokenize};

verus! {

/// A line that is one numeric literal parses to exactly that literal.
pub proof fn lemma_parse_literal(s: Seq<char>, text: Seq<char>, pos: nat)
    requires
        spec_tokenize(s) == Ok::<Seq<TokS>, nat>(
            seq![TokS { kind: TokKindS::Num { text }, pos }],
        ),
    ensures
        spec_parse(s) == Ok::<ExprS, nat>(ExprS::Number { text }),
{
}

/// The round trip of a numeric literal, up to the drivers' numeric
/// reduction: a line that is one valid literal parses to that literal, and
/// evaluating it on any environment yields the literal's term unchanged.
pub proof fn lemma_literal_round_trip(s: Seq<char>, env: EnvS, fuel: nat)
    requires
        is_literal_text(s),
    ensures
        spec_parse(s) == Ok::<ExprS, nat>(ExprS::Number { text: s }),
        spec_eval(ExprS::Number { text: s }, env, fuel) == (EvalOut {
            res: Ok(TermS::Lit { text: s }),
            env,
            prints: Seq::empty(),
        }),
{
    lemma_tokenize_literal(s);
    lemma_parse_literal(s, s, 0);
}

/// Assignment round trip: after a successful `name = value`, reading `name`
/// back yields exactly the value that the assignment produced.  The reserved
/// constants are excluded: they are checked before the variable bindings, so
/// an assignment to `pi` or `e` cannot be read back.
pub proof fn lemma_assign_roundtrip(
    name: Seq<char>,
    value: ExprS,
    env: EnvS,
    fuel: nat,
    fuel2: nat,
)
    requires
        name != "pi"@,
        name != "e"@,
        spec_eval(ExprS::Assignment { name, value: Box::new(value) }, env, fuel).res is Ok,
    ensures
        ({
            let o = spec_eval(ExprS::Assignment { name, value: Box::new(value) }, env, fuel);
            let back = spec_eval(ExprS::Variable { name }, o.env, fuel2);
            &&& back.res == o.res
            &&& back.env == o.env
            &&& back.prints == Seq::<TermS>::empty()
        }),
{
}

/// Left-associativity of `^`: a line of three numbers joined by two carets
/// parses as `(a ^ b) ^ c`, never `a ^ (b ^ c)`.
pub proof fn lemma_power_left_associative(t: Seq<TokS>, a: Seq<char>, b: Seq<char>, c: Seq<char>)
    requires
        t.len() == 5,
        t[0].kind == (TokKindS::Num { text: a }),
        t[1].kind is Caret,
        t[2].kind == (TokKindS::Num { text: b }),
        t[3].kind is Caret,
        t[4].kind == (TokKindS::Num { text: c }),
    ensures
        crate::parse::sp_statement(t) == Ok::<ExprS, nat>(
            ExprS::BinaryOp {
                op: crate::ast::BinOp::Pow,
                left: Box::new(
                    ExprS::BinaryOp {
                        op: crate::ast::BinOp::Pow,
                        left: Box::new(ExprS::Number { text: a }),
                        right: Box::new(ExprS::Number { text: b }),
                    },
                ),
                right: Box::new(ExprS::Number { text: c }),
            },
        ),
{
    let na = ExprS::Number { text: a };
    let nb = ExprS::Number { text: b };
    let nc = ExprS::Number { text: c };
    let pow1 = ExprS::BinaryOp { op: crate::ast::BinOp::Pow, left: Box::new(na), right: Box::new(nb) };
    let pow2 = ExprS::BinaryOp { op: crate::ast::BinOp::Pow, left: Box::new(pow1), right: Box::new(nc) };
    assert(crate::parse::sp_unary(t, 0) == Ok::<(ExprS, nat), nat>((na, 1nat)));
    assert(crate::parse::sp_unary(t, 2) == Ok::<(ExprS, nat), nat>((nb, 3nat)));
    assert(crate::parse::sp_unary(t, 4) == Ok::<(ExprS, nat), nat>((nc, 5nat)));
    assert(crate::parse::sp_power_tail(t, 5, pow2) == Ok::<(ExprS, nat), nat>((pow2, 5nat)));
    assert(crate::parse::sp_power_tail(t, 3, pow1) == Ok::<(ExprS, nat), nat>((pow2, 5nat)));
    assert(crate::parse::sp_power_tail(t, 1, na) == Ok::<(ExprS, nat), nat>((pow2, 5nat)));
    assert(crate::parse::sp_power(t, 0) == Ok::<(ExprS, nat), nat>((pow2, 5nat)));
    assert(crate::parse::sp_product_tail(t, 5, pow2) == Ok::<(ExprS, nat), nat>((pow2, 5nat)));
    assert(crate::parse::sp_product(t, 0) == Ok::<(ExprS, nat), nat>((pow2, 5nat)));
    assert(crate::parse::sp_sum_tail(t, 5, pow2) == Ok::<(ExprS, nat), nat>((pow2, 5nat)));
    assert(crate::parse::sp_sum(t, 0) == Ok::<(ExprS, nat), nat>((pow2, 5nat)));
    assert(crate::parse::sp_expression(t, 0) == Ok::<(ExprS, nat), nat>((pow2, 5nat)));
}

/// Reading an unbound variable on any environment fails with
/// `UndefinedVariable` of that name and changes nothing.
pub proof fn lemma_undefined_variable(name: Seq<char>, env: EnvS, fuel: nat)
    requires
        name != "pi"@,
        name != "e"@,
        !env.vars.contains_key(name),
    ensures
        spec_eval(ExprS::Variable { name }, env, fuel) == (EvalOut {
            res: Err(ErrS::UndefinedVariable { name }),
            env,
            prints: Seq::empty(),
        }),
{
}

/// Defining a function then calling it: the definition returns the zero
/// sentinel and binds only the function name; the call evaluates the single
/// argument in the caller's environment and then the body in a call-local
/// environment — the caller's variables with the parameter bound to the
/// argument's value — and the call-local environment is discarded.
pub proof fn lemma_define_then_call(
    name: Seq<char>,
    param: Seq<char>,
    body: ExprS,
    arg: ExprS,
    env: EnvS,
    fuel: nat,
)
    requires
        fuel > 0,
    ensures
        ({
            let o1 = spec_eval(
                ExprS::FunctionDef { name, param, body: Box::new(body) },
                env,
                fuel,
            );
            let o2 = spec_eval(
                ExprS::FunctionCall { name, args: seq![arg] },
                o1.env,
                fuel,
            );
            let oa = spec_eval(arg, o1.env, fuel);
            &&& o1.res == Ok::<TermS, ErrS>(TermS::Zero)
            &&& o1.env.vars == env.vars
            &&& o1.env.funcs == env.funcs.insert(name, FnDefS { param, body })
            &&& o1.prints == Seq::<TermS>::empty()
            &&& match oa.res {
                Ok(av) => {
                    let ob = spec_eval(
                        body,
                        EnvS { vars: oa.env.vars.insert(param, av), funcs: oa.env.funcs },
                        (fuel - 1) as nat,
                    );
                    &&& o2.res == ob.res
                    &&& o2.env == oa.env
                },
                Err(er) => o2.res == Err::<TermS, ErrS>(er) && o2.env == oa.env,
            }
        }),
{
}

/// The arity check of a user-function call comes before argument evaluation:
/// a call with any count other than one fails with `ArityMismatch` and has no
/// effect at all — no binding changes, nothing is printed.
pub proof fn lemma_arity_checked_first(name: Seq<char>, args: Seq<ExprS>, env: EnvS, fuel: nat)
    requires
        env.funcs.contains_key(name),
        args.len() != 1,
    ensures
        spec_eval(ExprS::FunctionCall { name, args }, env, fuel) == (EvalOut {
            res: Err(ErrS::ArityMismatch { name, expected: 1, got: args.len() }),
            env,
            prints: Seq::empty(),
        }),
{
}

/// The reserved constants win over any variable binding: `pi` and `e`
/// evaluate to their constants on every environment, even one where a
/// variable of the same name was assigned.
pub proof fn lemma_reserved_constants(env: EnvS, fuel: nat)
    ensures
        spec_eval(ExprS::Variable { name: "pi"@ }, env, fuel) == (EvalOut {
            res: Ok(TermS::Pi),
            env,
            prints: Seq::empty(),
        }),
        spec_eval(ExprS::Variable { name: "e"@ }, env, fuel) == (EvalOut {
            res: Ok(TermS::E),
            env,
            prints: Seq::empty(),
        }),
{
    reveal_strlit("pi");
    reveal_strlit("e");
    assert("e"@.len() == 1);
    assert("pi"@.len() == 2);
    assert("e"@ != "pi"@);
}

/// A user definition shadows the built-in of the same name: whenever the
/// called name is bound in the function table, the call is resolved to the
/// user function — built-in dispatch is never consulted.
pub proof fn lemma_user_shadows_builtin(name: Seq<char>, arg: ExprS, env: EnvS, fuel: nat)
    requires
        env.funcs.contains_key(name),
        fuel > 0,
    ensures
        ({
            let o = spec_eval(ExprS::FunctionCall { name, args: seq![arg] }, env, fuel);
            let oa = spec_eval(arg, env, fuel);
            let f = env.funcs[name];
            match oa.res {
                Ok(av) => {
                    let ob = spec_eval(
                        f.body,
                        EnvS { vars: oa.env.vars.insert(f.param, av), funcs: oa.env.funcs },
                        (fuel - 1) as nat,
                    );
                    &&& o.res == ob.res
                    &&& o.env == oa.env
                    &&& o.prints == oa.prints + ob.prints
                },
                Err(er) => o.res == Err::<TermS, ErrS>(er) && o.env == oa.env,
            }
        }),
{
}

} // verus!

