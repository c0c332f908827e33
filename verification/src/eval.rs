//! The evaluator: reduces an expression against an environment.
//!
//! Evaluation walks the tree once, left to right.  It never inspects a
//! numeric value, so its result is a symbolic [`Term`]; everything else —
//! variable lookup, assignment, function definition, call resolution, the
//! arity check, built-in dispatch, the print sink, and error selection — is
//! decided here and is specified exactly by [`spec_eval`].
//!
//! The reserved constants `pi` and `e` are checked ahead of the variable
//! bindings: a variable of the same name can be assigned but never read
//! back, so the constants cannot be shadowed.
//!
//! Recursion depth is bounded by an explicit counter: each user-function
//! call consumes one unit, and a call with none left fails with
//! [`EvalError::RecursionLimitExceeded`] instead of exhausting the native
//! stack.

use vstd::prelude::*;

use crate::ast::{Expr, ExprS, UnOp, expr_model, expr_size, exprs_model, exprs_size,
    lemma_exprs_model, lemma_exprs_size_index};
use crate::env::{Env, EnvS, FnDef, FnDefS};
use crate::term::{Term, TermS, lemma_terms_model_push, term_model, terms_model};

verus! {

/// Why evaluating a statement failed.  An error aborts only the current
/// statement; bindings made before the error remain.
#[derive(Debug, PartialEq)]
pub enum EvalError {
    /// A variable reference whose name is neither a reserved constant nor
    /// bound in the environment.
    UndefinedVariable(String),
    /// A call whose name is neither a user-defined function nor a built-in
    /// of the called arity.
    UnknownFunction(String),
    /// A call of a user-defined function with an argument count other than
    /// one, reported before any argument is evaluated.
    ArityMismatch { name: String, expected: usize, got: usize },
    /// The recursion depth budget ran out during user-function calls.
    RecursionLimitExceeded,
}

/// The mathematical model of an [`EvalError`].
pub enum ErrS {
    UndefinedVariable { name: Seq<char> },
    UnknownFunction { name: Seq<char> },
    ArityMismatch { name: Seq<char>, expected: nat, got: nat },
    RecursionLimitExceeded,
}

/// The model of an evaluation error.
pub open spec fn err_model(e: EvalError) -> ErrS {
    match e {
        EvalError::UndefinedVariable(n) => ErrS::UndefinedVariable { name: n@ },
        EvalError::UnknownFunction(n) => ErrS::UnknownFunction { name: n@ },
        EvalError::ArityMismatch { name, expected, got } => ErrS::ArityMismatch {
            name: name@,
            expected: expected as nat,
            got: got as nat,
        },
        EvalError::RecursionLimitExceeded => ErrS::RecursionLimitExceeded,
    }
}

/// Everything evaluating one expression yields: the result, the environment
/// after evaluation, and the values handed to the print sink, in order.
pub struct EvalOut {
    pub res: Result<TermS, ErrS>,
    pub env: EnvS,
    pub prints: Seq<TermS>,
}

/// The same, for a list of argument expressions evaluated left to right.
pub struct ArgsOut {
    pub res: Result<Seq<TermS>, ErrS>,
    pub env: EnvS,
    pub prints: Seq<TermS>,
}

/// The semantics of the language: what evaluating `e` in `env` with the given
/// recursion budget yields.  [`evaluate`] is proved to implement it.
pub open spec fn spec_eval(e: ExprS, env: EnvS, fuel: nat) -> EvalOut
    decreases fuel, expr_size(e),
    via spec_eval_decreases
{
    match e {
        ExprS::Number { text } => EvalOut {
            res: Ok(TermS::Lit { text }),
            env,
            prints: Seq::empty(),
        },
        ExprS::Variable { name } => EvalOut {
            res: if name == "pi"@ {
                Ok(TermS::Pi)
            } else if name == "e"@ {
                Ok(TermS::E)
            } else if env.vars.contains_key(name) {
                Ok(env.vars[name])
            } else {
                Err(ErrS::UndefinedVariable { name })
            },
            env,
            prints: Seq::empty(),
        },
        ExprS::UnaryOp { op, expr } => {
            let o = spec_eval(*expr, env, fuel);
            match o.res {
                Ok(t) => EvalOut {
                    res: Ok(
                        match op {
                            UnOp::Plus => t,
                            UnOp::Neg => TermS::Neg(Box::new(t)),
                        },
                    ),
                    env: o.env,
                    prints: o.prints,
                },
                Err(_) => o,
            }
        },
        ExprS::BinaryOp { op, left, right } => {
            let ol = spec_eval(*left, env, fuel);
            match ol.res {
                Err(_) => ol,
                Ok(lt) => {
                    let or = spec_eval(*right, ol.env, fuel);
                    EvalOut {
                        res: match or.res {
                            Err(er) => Err(er),
                            Ok(rt) => Ok(
                                TermS::Bin { op, left: Box::new(lt), right: Box::new(rt) },
                            ),
                        },
                        env: or.env,
                        prints: ol.prints + or.prints,
                    }
                },
            }
        },
        ExprS::FunctionCall { name, args } => {
            if env.funcs.contains_key(name) {
                if args.len() != 1 {
                    EvalOut {
                        res: Err(
                            ErrS::ArityMismatch { name, expected: 1, got: args.len() },
                        ),
                        env,
                        prints: Seq::empty(),
                    }
                } else {
                    let f = env.funcs[name];
                    let oa = spec_eval(args[0], env, fuel);
                    match oa.res {
                        Err(_) => oa,
                        Ok(av) => {
                            if fuel == 0 {
                                EvalOut {
                                    res: Err(ErrS::RecursionLimitExceeded),
                                    env: oa.env,
                                    prints: oa.prints,
                                }
                            } else {
                                let local = EnvS {
                                    vars: oa.env.vars.insert(f.param, av),
                                    funcs: oa.env.funcs,
                                };
                                let ob = spec_eval(f.body, local, (fuel - 1) as nat);
                                EvalOut {
                                    res: ob.res,
                                    env: oa.env,
                                    prints: oa.prints + ob.prints,
                                }
                            }
                        },
                    }
                }
            } else {
                let oargs = spec_eval_args(args, env, fuel);
                match oargs.res {
                    Err(er) => EvalOut { res: Err(er), env: oargs.env, prints: oargs.prints },
                    Ok(vs) => EvalOut {
                        res: if name == "sin"@ && vs.len() == 1 {
                            Ok(TermS::Sin(Box::new(vs[0])))
                        } else if name == "cos"@ && vs.len() == 1 {
                            Ok(TermS::Cos(Box::new(vs[0])))
                        } else if name == "max"@ && vs.len() == 2 {
                            Ok(TermS::Max(Box::new(vs[0]), Box::new(vs[1])))
                        } else {
                            Err(ErrS::UnknownFunction { name })
                        },
                        env: oargs.env,
                        prints: oargs.prints,
                    },
                }
            }
        },
        ExprS::Assignment { name, value } => {
            let o = spec_eval(*value, env, fuel);
            match o.res {
                Err(_) => o,
                Ok(t) => EvalOut {
                    res: Ok(t),
                    env: EnvS { vars: o.env.vars.insert(name, t), funcs: o.env.funcs },
                    prints: o.prints,
                },
            }
        },
        ExprS::FunctionDef { name, param, body } => EvalOut {
            res: Ok(TermS::Zero),
            env: EnvS {
                vars: env.vars,
                funcs: env.funcs.insert(name, FnDefS { param, body: *body }),
            },
            prints: Seq::empty(),
        },
        ExprS::Print { expr } => {
            let o = spec_eval(*expr, env, fuel);
            match o.res {
                Err(_) => o,
                Ok(t) => EvalOut { res: Ok(t), env: o.env, prints: o.prints.push(t) },
            }
        },
    }
}

#[via_fn]
proof fn spec_eval_decreases(e: ExprS, env: EnvS, fuel: nat) {
    if let ExprS::FunctionCall { name, args } = e {
        if args.len() >= 1 {
            lemma_exprs_size_index(args, 0);
        }
    }
}

/// The semantics of evaluating a list of argument expressions left to right:
/// the values of all of them, or the first error.
pub open spec fn spec_eval_args(args: Seq<ExprS>, env: EnvS, fuel: nat) -> ArgsOut
    decreases fuel, exprs_size(args),
{
    if args.len() == 0 {
        ArgsOut { res: Ok(Seq::empty()), env, prints: Seq::empty() }
    } else {
        let o = spec_eval(args[0], env, fuel);
        match o.res {
            Err(er) => ArgsOut { res: Err(er), env: o.env, prints: o.prints },
            Ok(t) => {
                let rest = spec_eval_args(args.drop_first(), o.env, fuel);
                ArgsOut {
                    res: match rest.res {
                        Err(er) => Err(er),
                        Ok(ts) => Ok(seq![t] + ts),
                    },
                    env: rest.env,
                    prints: o.prints + rest.prints,
                }
            },
        }
    }
}

proof fn lemma_seq_add_empty<A>(s: Seq<A>)
    ensures
        s + Seq::<A>::empty() == s,
        Seq::<A>::empty() + s == s,
{
    assert(s + Seq::<A>::empty() =~= s);
    assert(Seq::<A>::empty() + s =~= s);
}

proof fn lemma_seq_add_assoc<A>(a: Seq<A>, b: Seq<A>, c: Seq<A>)
    ensures
        (a + b) + c == a + (b + c),
{
    assert((a + b) + c =~= a + (b + c));
}

/// Evaluates one statement: walks the tree, reading and writing `env`,
/// appending each printed value to `out`, with at most `fuel` nested
/// user-function calls.  Implements [`spec_eval`] exactly.
pub fn evaluate(e: &Expr, env: &mut Env, out: &mut Vec<Term>, fuel: u64) -> (r: Result<
    Term,
    EvalError,
>)
    ensures
        ({
            let o = spec_eval(expr_model(*e), old(env)@, fuel as nat);
            &&& final(env)@ == o.env
            &&& terms_model(final(out)@) == terms_model(old(out)@) + o.prints
            &&& match r {
                Ok(t) => o.res == Ok::<TermS, ErrS>(term_model(t)),
                Err(er) => o.res == Err::<TermS, ErrS>(err_model(er)),
            }
        }),
    decreases fuel, expr_size(expr_model(*e)),
{
    proof {
        lemma_seq_add_empty::<TermS>(terms_model(out@));
    }
    match e {
        Expr::Number(t) => Ok(Term::Lit(t.clone())),
        Expr::Variable(n) => {
            let pi_name: String = "pi".to_owned();
            let e_name: String = "e".to_owned();
            if *n == pi_name {
                Ok(Term::Pi)
            } else if *n == e_name {
                Ok(Term::E)
            } else {
                match env.get_var(n) {
                    Some(t) => Ok(t),
                    None => Err(EvalError::UndefinedVariable(n.clone())),
                }
            }
        },
        Expr::UnaryOp { op, expr } => {
            match evaluate(expr, env, out, fuel) {
                Err(er) => Err(er),
                Ok(t) => Ok(
                    match op {
                        UnOp::Plus => t,
                        UnOp::Neg => Term::Neg(Box::new(t)),
                    },
                ),
            }
        },
        Expr::BinaryOp { op, left, right } => {
            match evaluate(left, env, out, fuel) {
                Err(er) => Err(er),
                Ok(lt) => {
                    match evaluate(right, env, out, fuel) {
                        Err(er) => {
                            proof {
                                let o1 = spec_eval(expr_model(**left), old(env)@, fuel as nat);
                                let o2 = spec_eval(expr_model(**right), o1.env, fuel as nat);
                                lemma_seq_add_assoc(
                                    terms_model(old(out)@),
                                    o1.prints,
                                    o2.prints,
                                );
                            }
                            Err(er)
                        },
                        Ok(rt) => {
                            proof {
                                let o1 = spec_eval(expr_model(**left), old(env)@, fuel as nat);
                                let o2 = spec_eval(expr_model(**right), o1.env, fuel as nat);
                                lemma_seq_add_assoc(
                                    terms_model(old(out)@),
                                    o1.prints,
                                    o2.prints,
                                );
                            }
                            Ok(Term::Bin { op: *op, left: Box::new(lt), right: Box::new(rt) })
                        },
                    }
                },
            }
        },
        Expr::FunctionCall { name, args } => {
            proof {
                lemma_exprs_model(args@);
            }
            match env.get_func(name) {
                Some(f) => {
                    if args.len() != 1 {
                        return Err(
                            EvalError::ArityMismatch {
                                name: name.clone(),
                                expected: 1,
                                got: args.len(),
                            },
                        );
                    }
                    proof {
                        lemma_exprs_size_index(exprs_model(args@), 0);
                    }
                    match evaluate(&args[0], env, out, fuel) {
                        Err(er) => Err(er),
                        Ok(av) => {
                            if fuel == 0 {
                                return Err(EvalError::RecursionLimitExceeded);
                            }
                            let FnDef { param, body } = f;
                            let mut local = env.call_env(param, av);
                            let rb = evaluate(&body, &mut local, out, fuel - 1);
                            proof {
                                let oa = spec_eval(
                                    exprs_model(args@)[0],
                                    old(env)@,
                                    fuel as nat,
                                );
                                let fs = old(env)@.funcs[name@];
                                let locals = EnvS {
                                    vars: oa.env.vars.insert(fs.param, oa.res->Ok_0),
                                    funcs: oa.env.funcs,
                                };
                                let ob = spec_eval(fs.body, locals, (fuel - 1) as nat);
                                lemma_seq_add_assoc(
                                    terms_model(old(out)@),
                                    oa.prints,
                                    ob.prints,
                                );
                            }
                            rb
                        },
                    }
                },
                None => {
                    match eval_args(args, env, out, fuel) {
                        Err(er) => Err(er),
                        Ok(vals) => {
                            let sin_name: String = "sin".to_owned();
                            let cos_name: String = "cos".to_owned();
                            let max_name: String = "max".to_owned();
                            let mut vals = vals;
                            proof {
                                lemma_vals_index(vals@);
                            }
                            if *name == sin_name && vals.len() == 1 {
                                let a = vals.pop().unwrap();
                                Ok(Term::Sin(Box::new(a)))
                            } else if *name == cos_name && vals.len() == 1 {
                                let a = vals.pop().unwrap();
                                Ok(Term::Cos(Box::new(a)))
                            } else if *name == max_name && vals.len() == 2 {
                                let b = vals.pop().unwrap();
                                let a = vals.pop().unwrap();
                                Ok(Term::Max(Box::new(a), Box::new(b)))
                            } else {
                                Err(EvalError::UnknownFunction(name.clone()))
                            }
                        },
                    }
                },
            }
        },
        Expr::Assignment { name, value } => {
            match evaluate(value, env, out, fuel) {
                Err(er) => Err(er),
                Ok(t) => {
                    let copy = t.dup();
                    env.set_var(name.clone(), copy);
                    Ok(t)
                },
            }
        },
        Expr::FunctionDef { name, param, body } => {
            env.set_func(name.clone(), FnDef { param: param.clone(), body: body.dup() });
            Ok(Term::Zero)
        },
        Expr::Print(inner) => {
            match evaluate(inner, env, out, fuel) {
                Err(er) => Err(er),
                Ok(t) => {
                    let ghost before = out@;
                    let copy = t.dup();
                    out.push(copy);
                    proof {
                        lemma_terms_model_push(before, copy);
                        let o = spec_eval(expr_model(**inner), old(env)@, fuel as nat);
                        assert((terms_model(old(out)@) + o.prints).push(term_model(t)) =~= terms_model(
                            old(out)@,
                        ) + o.prints.push(term_model(t)));
                    }
                    Ok(t)
                },
            }
        },
    }
}

/// The model of a short list of terms, element by element.
proof fn lemma_vals_index(s: Seq<Term>)
    ensures
        terms_model(s).len() == s.len(),
        s.len() == 1 ==> terms_model(s) == seq![term_model(s[0])],
        s.len() == 2 ==> terms_model(s) == seq![term_model(s[0]), term_model(s[1])],
{
    crate::term::lemma_terms_model_len(s);
    if s.len() == 1 {
        assert(terms_model(s.drop_last()) =~= Seq::<TermS>::empty());
        assert(terms_model(s) =~= seq![term_model(s[0])]);
    }
    if s.len() == 2 {
        let d = s.drop_last();
        assert(d.last() == s[0]);
        assert(d.drop_last() =~= Seq::<Term>::empty());
        assert(terms_model(d) =~= seq![term_model(s[0])]);
        assert(terms_model(s) =~= seq![term_model(s[0]), term_model(s[1])]);
    }
}

/// Evaluates a list of argument expressions left to right against the
/// caller's environment.  Implements [`spec_eval_args`] exactly.
#[verifier::loop_isolation(false)]
fn eval_args(args: &Vec<Expr>, env: &mut Env, out: &mut Vec<Term>, fuel: u64) -> (r: Result<
    Vec<Term>,
    EvalError,
>)
    ensures
        ({
            let o = spec_eval_args(exprs_model(args@), old(env)@, fuel as nat);
            &&& final(env)@ == o.env
            &&& terms_model(final(out)@) == terms_model(old(out)@) + o.prints
            &&& match r {
                Ok(ts) => o.res == Ok::<Seq<TermS>, ErrS>(terms_model(ts@)),
                Err(er) => o.res == Err::<Seq<TermS>, ErrS>(err_model(er)),
            }
        }),
    decreases fuel, exprs_size(exprs_model(args@)),
{
    let ghost s = exprs_model(args@);
    let ghost o_whole = spec_eval_args(s, old(env)@, fuel as nat);
    let mut vals: Vec<Term> = Vec::new();
    let ghost mut printed: Seq<TermS> = Seq::empty();
    let mut j: usize = 0;
    proof {
        lemma_exprs_model(args@);
        assert(s.subrange(0, s.len() as int) =~= s);
        lemma_seq_add_empty::<TermS>(terms_model(old(out)@));
        lemma_seq_add_empty::<TermS>(
            spec_eval_args(s, old(env)@, fuel as nat).prints,
        );
        if o_whole.res is Ok {
            lemma_seq_add_empty::<TermS>(o_whole.res->Ok_0);
        }
        assert(terms_model(vals@) =~= Seq::<TermS>::empty());
    }
    while j < args.len()
        invariant
            j <= args@.len(),
            vals@.len() == j as nat,
            terms_model(out@) == terms_model(old(out)@) + printed,
            ({
                let orest = spec_eval_args(
                    s.subrange(j as int, s.len() as int),
                    env@,
                    fuel as nat,
                );
                &&& o_whole.env == orest.env
                &&& o_whole.prints == printed + orest.prints
                &&& match orest.res {
                    Ok(ts) => o_whole.res == Ok::<Seq<TermS>, ErrS>(terms_model(vals@) + ts),
                    Err(er) => o_whole.res == Err::<Seq<TermS>, ErrS>(er),
                }
            }),
        decreases args@.len() - j,
    {
        let ghost rem = s.subrange(j as int, s.len() as int);
        let ghost env_before = env@;
        proof {
            assert(rem[0] == s[j as int]);
            assert(rem.drop_first() =~= s.subrange(j as int + 1, s.len() as int));
            lemma_exprs_size_index(s, j as int);
        }
        match evaluate(&args[j], env, out, fuel) {
            Err(er) => {
                proof {
                    let oj = spec_eval(s[j as int], env_before, fuel as nat);
                    lemma_seq_add_assoc(terms_model(old(out)@), printed, oj.prints);
                }
                return Err(er);
            },
            Ok(t) => {
                let ghost vals_before = vals@;
                vals.push(t);
                proof {
                    let oj = spec_eval(s[j as int], env_before, fuel as nat);
                    let orest2 = spec_eval_args(rem.drop_first(), oj.env, fuel as nat);
                    lemma_terms_model_push(vals_before, t);
                    lemma_seq_add_assoc(terms_model(old(out)@), printed, oj.prints);
                    lemma_seq_add_assoc(printed, oj.prints, orest2.prints);
                    if orest2.res is Ok {
                        assert(terms_model(vals_before).push(term_model(t)) =~= terms_model(
                            vals_before,
                        ) + seq![term_model(t)]);
                        lemma_seq_add_assoc(
                            terms_model(vals_before),
                            seq![term_model(t)],
                            orest2.res->Ok_0,
                        );
                    }
                    printed = printed + oj.prints;
                }
                j = j + 1;
            },
        }
    }
    proof {
        assert(s.subrange(s.len() as int, s.len() as int) =~= Seq::<ExprS>::empty());
        lemma_seq_add_empty::<TermS>(printed);
        lemma_seq_add_empty::<TermS>(terms_model(vals@));
    }
    Ok(vals)
}

} // verus!
