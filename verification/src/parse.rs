//! The parser: one line of tokens to one statement.
//!
//! Grammar, lowest precedence first; every binary level folds to the left,
//! so `^` is left-associative (`a^b^c` is `(a^b)^c`), and a unary sign binds
//! tighter than any binary operator:
//!
//! ```text
//! statement    := function_def | assignment | print_stmt | expression
//! function_def := ident "(" ident ")" "=" expression
//! assignment   := ident "=" expression
//! print_stmt   := "print" expression
//! expression   := sum
//! sum          := product ( ("+"|"-") product )*
//! product      := power ( ("*"|"/") power )*
//! power        := unary ( "^" unary )*
//! unary        := ("+"|"-")? primary
//! primary      := number | function_call | ident | "(" expression ")"
//! function_call := ident "(" expression ("," expression)* ")"
//! ```
//!
//! The alternatives of `statement` are tried in the order written, each
//! against the whole line; the first whose leading tokens fit is committed
//! to.  A line that no alternative matches in its entirety is a syntax error
//! pointing at the offending position.
//!
//! The `sp_` spec functions state the grammar; each parsing function is
//! proved to implement its spec function exactly.  Inside this module a
//! parse error is the index of the offending token; [`parse`] turns it into
//! the character position the token starts at, or the line length when the
//! line ended too early.

use vstd::prelude::*;

use crate::ast::{BinOp, Expr, ExprS, UnOp, expr_model, exprs_model, lemma_exprs_model};
use crate::token::{SyntaxError, TokKind, TokKindS, TokS, Token, lemma_toks_model, spec_tokenize,
    tok_model, tokenize, toks_model};

verus! {

/// Parses `expression := sum`.
pub open spec fn sp_expression(t: Seq<TokS>, p: nat) -> Result<(ExprS, nat), nat>
    decreases t.len() - p, 6int,
    when p <= t.len()
{
    sp_sum(t, p)
}

/// Parses `sum := product ( ("+"|"-") product )*`.
pub open spec fn sp_sum(t: Seq<TokS>, p: nat) -> Result<(ExprS, nat), nat>
    decreases t.len() - p, 5int,
    when p <= t.len()
{
    match sp_product(t, p) {
        Err(i) => Err(i),
        Ok((first, p1)) => {
            if p < p1 && p1 <= t.len() {
                sp_sum_tail(t, p1, first)
            } else {
                Err(p1)
            }
        },
    }
}

/// Folds further `("+"|"-") product` pairs onto `acc`, left to right.
pub open spec fn sp_sum_tail(t: Seq<TokS>, p: nat, acc: ExprS) -> Result<(ExprS, nat), nat>
    decreases t.len() - p, 7int,
    when p <= t.len()
{
    if p < t.len() && (t[p as int].kind is Plus || t[p as int].kind is Minus) {
        let op = if t[p as int].kind is Plus {
            BinOp::Add
        } else {
            BinOp::Sub
        };
        match sp_product(t, p + 1) {
            Err(i) => Err(i),
            Ok((rhs, p2)) => {
                if p + 1 < p2 && p2 <= t.len() {
                    sp_sum_tail(
                        t,
                        p2,
                        ExprS::BinaryOp { op, left: Box::new(acc), right: Box::new(rhs) },
                    )
                } else {
                    Err(p2)
                }
            },
        }
    } else {
        Ok((acc, p))
    }
}

/// Parses `product := power ( ("*"|"/") power )*`.
pub open spec fn sp_product(t: Seq<TokS>, p: nat) -> Result<(ExprS, nat), nat>
    decreases t.len() - p, 4int,
    when p <= t.len()
{
    match sp_power(t, p) {
        Err(i) => Err(i),
        Ok((first, p1)) => {
            if p < p1 && p1 <= t.len() {
                sp_product_tail(t, p1, first)
            } else {
                Err(p1)
            }
        },
    }
}

/// Folds further `("*"|"/") power` pairs onto `acc`, left to right.
pub open spec fn sp_product_tail(t: Seq<TokS>, p: nat, acc: ExprS) -> Result<(ExprS, nat), nat>
    decreases t.len() - p, 7int,
    when p <= t.len()
{
    if p < t.len() && (t[p as int].kind is Star || t[p as int].kind is Slash) {
        let op = if t[p as int].kind is Star {
            BinOp::Mul
        } else {
            BinOp::Div
        };
        match sp_power(t, p + 1) {
            Err(i) => Err(i),
            Ok((rhs, p2)) => {
                if p + 1 < p2 && p2 <= t.len() {
                    sp_product_tail(
                        t,
                        p2,
                        ExprS::BinaryOp { op, left: Box::new(acc), right: Box::new(rhs) },
                    )
                } else {
                    Err(p2)
                }
            },
        }
    } else {
        Ok((acc, p))
    }
}

/// Parses `power := unary ( "^" unary )*`; the fold is to the left.
pub open spec fn sp_power(t: Seq<TokS>, p: nat) -> Result<(ExprS, nat), nat>
    decreases t.len() - p, 3int,
    when p <= t.len()
{
    match sp_unary(t, p) {
        Err(i) => Err(i),
        Ok((first, p1)) => {
            if p < p1 && p1 <= t.len() {
                sp_power_tail(t, p1, first)
            } else {
                Err(p1)
            }
        },
    }
}

/// Folds further `"^" unary` pairs onto `acc`, left to right.
pub open spec fn sp_power_tail(t: Seq<TokS>, p: nat, acc: ExprS) -> Result<(ExprS, nat), nat>
    decreases t.len() - p, 7int,
    when p <= t.len()
{
    if p < t.len() && t[p as int].kind is Caret {
        match sp_unary(t, p + 1) {
            Err(i) => Err(i),
            Ok((rhs, p2)) => {
                if p + 1 < p2 && p2 <= t.len() {
                    sp_power_tail(
                        t,
                        p2,
                        ExprS::BinaryOp {
                            op: BinOp::Pow,
                            left: Box::new(acc),
                            right: Box::new(rhs),
                        },
                    )
                } else {
                    Err(p2)
                }
            },
        }
    } else {
        Ok((acc, p))
    }
}

/// Parses `unary := ("+"|"-")? primary`; without a sign no node is added.
pub open spec fn sp_unary(t: Seq<TokS>, p: nat) -> Result<(ExprS, nat), nat>
    decreases t.len() - p, 2int,
    when p <= t.len()
{
    if p < t.len() && (t[p as int].kind is Plus || t[p as int].kind is Minus) {
        let op = if t[p as int].kind is Plus {
            UnOp::Plus
        } else {
            UnOp::Neg
        };
        match sp_primary(t, p + 1) {
            Err(i) => Err(i),
            Ok((inner, p1)) => Ok((ExprS::UnaryOp { op, expr: Box::new(inner) }, p1)),
        }
    } else {
        sp_primary(t, p)
    }
}

/// Parses `primary := number | function_call | ident | "(" expression ")"`.
pub open spec fn sp_primary(t: Seq<TokS>, p: nat) -> Result<(ExprS, nat), nat>
    decreases t.len() - p, 1int,
    when p <= t.len()
{
    if p >= t.len() {
        Err(p)
    } else {
        match t[p as int].kind {
            TokKindS::Num { text } => Ok((ExprS::Number { text }, p + 1)),
            TokKindS::Ident { name } => {
                if p + 1 < t.len() && t[p as int + 1].kind is LParen {
                    match sp_args(t, p + 2) {
                        Err(i) => Err(i),
                        Ok((args, p2)) => {
                            if p2 < t.len() && t[p2 as int].kind is RParen {
                                Ok((ExprS::FunctionCall { name, args }, p2 + 1))
                            } else {
                                Err(p2)
                            }
                        },
                    }
                } else {
                    Ok((ExprS::Variable { name }, p + 1))
                }
            },
            TokKindS::LParen => {
                match sp_expression(t, p + 1) {
                    Err(i) => Err(i),
                    Ok((inner, p1)) => {
                        if p1 < t.len() && t[p1 as int].kind is RParen {
                            Ok((inner, p1 + 1))
                        } else {
                            Err(p1)
                        }
                    },
                }
            },
            _ => Err(p),
        }
    }
}

/// Parses `expression ("," expression)*`: the arguments of a call.
pub open spec fn sp_args(t: Seq<TokS>, p: nat) -> Result<(Seq<ExprS>, nat), nat>
    decreases t.len() - p, 7int,
    when p <= t.len()
{
    match sp_expression(t, p) {
        Err(i) => Err(i),
        Ok((first, p1)) => {
            if p < p1 && p1 < t.len() && t[p1 as int].kind is Comma {
                match sp_args(t, p1 + 1) {
                    Err(i) => Err(i),
                    Ok((rest, p2)) => Ok((seq![first] + rest, p2)),
                }
            } else if p < p1 {
                Ok((seq![first], p1))
            } else {
                Err(p1)
            }
        },
    }
}

/// Parses `statement`, trying the alternatives in order against the whole
/// token list.
pub open spec fn sp_statement(t: Seq<TokS>) -> Result<ExprS, nat> {
    if t.len() >= 5 && t[0].kind is Ident && t[1].kind is LParen && t[2].kind is Ident
        && t[3].kind is RParen && t[4].kind is Equal {
        match sp_expression(t, 5) {
            Err(i) => Err(i),
            Ok((body, p)) => {
                if p == t.len() {
                    Ok(
                        ExprS::FunctionDef {
                            name: t[0].kind->name,
                            param: t[2].kind->name,
                            body: Box::new(body),
                        },
                    )
                } else {
                    Err(p)
                }
            },
        }
    } else if t.len() >= 2 && t[0].kind is Ident && t[1].kind is Equal {
        match sp_expression(t, 2) {
            Err(i) => Err(i),
            Ok((value, p)) => {
                if p == t.len() {
                    Ok(ExprS::Assignment { name: t[0].kind->name, value: Box::new(value) })
                } else {
                    Err(p)
                }
            },
        }
    } else if t.len() >= 2 && t[0].kind is Ident && t[0].kind->name == "print"@ {
        match sp_expression(t, 1) {
            Err(i) => Err(i),
            Ok((inner, p)) => {
                if p == t.len() {
                    Ok(ExprS::Print { expr: Box::new(inner) })
                } else {
                    Err(p)
                }
            },
        }
    } else {
        match sp_expression(t, 0) {
            Err(i) => Err(i),
            Ok((e, p)) => {
                if p == t.len() {
                    Ok(e)
                } else {
                    Err(p)
                }
            },
        }
    }
}

/// What parsing a whole line yields: the statement's tree, or the character
/// position where the grammar stopped matching.
pub open spec fn spec_parse(s: Seq<char>) -> Result<ExprS, nat> {
    match spec_tokenize(s) {
        Err(i) => Err(i),
        Ok(ts) => match sp_statement(ts) {
            Ok(e) => Ok(e),
            Err(idx) => Err(
                if idx < ts.len() {
                    ts[idx as int].pos
                } else {
                    s.len()
                },
            ),
        },
    }
}

/// The identifier a token holds, if it is one.
fn tok_ident_name(k: &TokKind) -> (r: Option<String>)
    ensures
        match r {
            Some(s) => tok_kind_model(*k) is Ident && tok_kind_model(*k)->name == s@,
            None => !(tok_kind_model(*k) is Ident),
        },
{
    match k {
        TokKind::Ident(s) => Some(s.clone()),
        _ => None,
    }
}

/// The model of a token kind alone.
pub open spec fn tok_kind_model(k: TokKind) -> TokKindS {
    (tok_model(Token { kind: k, pos: 0 })).kind
}

/// Implements [`sp_expression`].
fn p_expression(toks: &Vec<Token>, p: usize) -> (r: Result<(Expr, usize), usize>)
    requires
        p <= toks@.len(),
    ensures
        match r {
            Ok(pair) => sp_expression(toks_model(toks@), p as nat) == Ok::<(ExprS, nat), nat>(
                (expr_model(pair.0), pair.1 as nat),
            ) && pair.1 <= toks@.len(),
            Err(i) => sp_expression(toks_model(toks@), p as nat) == Err::<(ExprS, nat), nat>(
                i as nat,
            ),
        },
    decreases toks@.len() - p, 6int,
{
    proof {
        lemma_toks_model(toks@);
    }
    p_sum(toks, p)
}

/// Implements [`sp_sum`].
fn p_sum(toks: &Vec<Token>, p: usize) -> (r: Result<(Expr, usize), usize>)
    requires
        p <= toks@.len(),
    ensures
        match r {
            Ok(pair) => sp_sum(toks_model(toks@), p as nat) == Ok::<(ExprS, nat), nat>(
                (expr_model(pair.0), pair.1 as nat),
            ) && pair.1 <= toks@.len(),
            Err(i) => sp_sum(toks_model(toks@), p as nat) == Err::<(ExprS, nat), nat>(i as nat),
        },
    decreases toks@.len() - p, 5int,
{
    proof {
        lemma_toks_model(toks@);
    }
    match p_product(toks, p) {
        Err(i) => Err(i),
        Ok((first, p1)) => {
            if p < p1 && p1 <= toks.len() {
                p_sum_tail(toks, p1, first)
            } else {
                Err(p1)
            }
        },
    }
}

/// Implements [`sp_sum_tail`].
fn p_sum_tail(toks: &Vec<Token>, p: usize, acc: Expr) -> (r: Result<(Expr, usize), usize>)
    requires
        p <= toks@.len(),
    ensures
        match r {
            Ok(pair) => sp_sum_tail(toks_model(toks@), p as nat, expr_model(acc))
                == Ok::<(ExprS, nat), nat>((expr_model(pair.0), pair.1 as nat)) && pair.1
                <= toks@.len(),
            Err(i) => sp_sum_tail(toks_model(toks@), p as nat, expr_model(acc)) == Err::<
                (ExprS, nat),
                nat,
            >(i as nat),
        },
    decreases toks@.len() - p, 7int,
{
    proof {
        lemma_toks_model(toks@);
    }
    let op: Option<BinOp> = if p < toks.len() {
        match &toks[p].kind {
            TokKind::Plus => Some(BinOp::Add),
            TokKind::Minus => Some(BinOp::Sub),
            _ => None,
        }
    } else {
        None
    };
    match op {
        None => Ok((acc, p)),
        Some(op) => {
            match p_product(toks, p + 1) {
                Err(i) => Err(i),
                Ok((rhs, p2)) => {
                    if p + 1 < p2 && p2 <= toks.len() {
                        p_sum_tail(
                            toks,
                            p2,
                            Expr::BinaryOp { op, left: Box::new(acc), right: Box::new(rhs) },
                        )
                    } else {
                        Err(p2)
                    }
                },
            }
        },
    }
}

/// Implements [`sp_product`].
fn p_product(toks: &Vec<Token>, p: usize) -> (r: Result<(Expr, usize), usize>)
    requires
        p <= toks@.len(),
    ensures
        match r {
            Ok(pair) => sp_product(toks_model(toks@), p as nat) == Ok::<(ExprS, nat), nat>(
                (expr_model(pair.0), pair.1 as nat),
            ) && pair.1 <= toks@.len(),
            Err(i) => sp_product(toks_model(toks@), p as nat) == Err::<(ExprS, nat), nat>(
                i as nat,
            ),
        },
    decreases toks@.len() - p, 4int,
{
    proof {
        lemma_toks_model(toks@);
    }
    match p_power(toks, p) {
        Err(i) => Err(i),
        Ok((first, p1)) => {
            if p < p1 && p1 <= toks.len() {
                p_product_tail(toks, p1, first)
            } else {
                Err(p1)
            }
        },
    }
}

/// Implements [`sp_product_tail`].
fn p_product_tail(toks: &Vec<Token>, p: usize, acc: Expr) -> (r: Result<(Expr, usize), usize>)
    requires
        p <= toks@.len(),
    ensures
        match r {
            Ok(pair) => sp_product_tail(toks_model(toks@), p as nat, expr_model(acc))
                == Ok::<(ExprS, nat), nat>((expr_model(pair.0), pair.1 as nat)) && pair.1
                <= toks@.len(),
            Err(i) => sp_product_tail(toks_model(toks@), p as nat, expr_model(acc)) == Err::<
                (ExprS, nat),
                nat,
            >(i as nat),
        },
    decreases toks@.len() - p, 7int,
{
    proof {
        lemma_toks_model(toks@);
    }
    let op: Option<BinOp> = if p < toks.len() {
        match &toks[p].kind {
            TokKind::Star => Some(BinOp::Mul),
            TokKind::Slash => Some(BinOp::Div),
            _ => None,
        }
    } else {
        None
    };
    match op {
        None => Ok((acc, p)),
        Some(op) => {
            match p_power(toks, p + 1) {
                Err(i) => Err(i),
                Ok((rhs, p2)) => {
                    if p + 1 < p2 && p2 <= toks.len() {
                        p_product_tail(
                            toks,
                            p2,
                            Expr::BinaryOp { op, left: Box::new(acc), right: Box::new(rhs) },
                        )
                    } else {
                        Err(p2)
                    }
                },
            }
        },
    }
}

/// Implements [`sp_power`].
fn p_power(toks: &Vec<Token>, p: usize) -> (r: Result<(Expr, usize), usize>)
    requires
        p <= toks@.len(),
    ensures
        match r {
            Ok(pair) => sp_power(toks_model(toks@), p as nat) == Ok::<(ExprS, nat), nat>(
                (expr_model(pair.0), pair.1 as nat),
            ) && pair.1 <= toks@.len(),
            Err(i) => sp_power(toks_model(toks@), p as nat) == Err::<(ExprS, nat), nat>(i as nat),
        },
    decreases toks@.len() - p, 3int,
{
    proof {
        lemma_toks_model(toks@);
    }
    match p_unary(toks, p) {
        Err(i) => Err(i),
        Ok((first, p1)) => {
            if p < p1 && p1 <= toks.len() {
                p_power_tail(toks, p1, first)
            } else {
                Err(p1)
            }
        },
    }
}

/// Implements [`sp_power_tail`].
fn p_power_tail(toks: &Vec<Token>, p: usize, acc: Expr) -> (r: Result<(Expr, usize), usize>)
    requires
        p <= toks@.len(),
    ensures
        match r {
            Ok(pair) => sp_power_tail(toks_model(toks@), p as nat, expr_model(acc))
                == Ok::<(ExprS, nat), nat>((expr_model(pair.0), pair.1 as nat)) && pair.1
                <= toks@.len(),
            Err(i) => sp_power_tail(toks_model(toks@), p as nat, expr_model(acc)) == Err::<
                (ExprS, nat),
                nat,
            >(i as nat),
        },
    decreases toks@.len() - p, 7int,
{
    proof {
        lemma_toks_model(toks@);
    }
    let caret: bool = if p < toks.len() {
        match &toks[p].kind {
            TokKind::Caret => true,
            _ => false,
        }
    } else {
        false
    };
    if caret {
        match p_unary(toks, p + 1) {
            Err(i) => Err(i),
            Ok((rhs, p2)) => {
                if p + 1 < p2 && p2 <= toks.len() {
                    p_power_tail(
                        toks,
                        p2,
                        Expr::BinaryOp {
                            op: BinOp::Pow,
                            left: Box::new(acc),
                            right: Box::new(rhs),
                        },
                    )
                } else {
                    Err(p2)
                }
            },
        }
    } else {
        Ok((acc, p))
    }
}

/// Implements [`sp_unary`].
fn p_unary(toks: &Vec<Token>, p: usize) -> (r: Result<(Expr, usize), usize>)
    requires
        p <= toks@.len(),
    ensures
        match r {
            Ok(pair) => sp_unary(toks_model(toks@), p as nat) == Ok::<(ExprS, nat), nat>(
                (expr_model(pair.0), pair.1 as nat),
            ) && pair.1 <= toks@.len(),
            Err(i) => sp_unary(toks_model(toks@), p as nat) == Err::<(ExprS, nat), nat>(i as nat),
        },
    decreases toks@.len() - p, 2int,
{
    proof {
        lemma_toks_model(toks@);
    }
    let op: Option<UnOp> = if p < toks.len() {
        match &toks[p].kind {
            TokKind::Plus => Some(UnOp::Plus),
            TokKind::Minus => Some(UnOp::Neg),
            _ => None,
        }
    } else {
        None
    };
    match op {
        None => p_primary(toks, p),
        Some(op) => {
            match p_primary(toks, p + 1) {
                Err(i) => Err(i),
                Ok((inner, p1)) => Ok((Expr::UnaryOp { op, expr: Box::new(inner) }, p1)),
            }
        },
    }
}

/// Implements [`sp_primary`].
fn p_primary(toks: &Vec<Token>, p: usize) -> (r: Result<(Expr, usize), usize>)
    requires
        p <= toks@.len(),
    ensures
        match r {
            Ok(pair) => sp_primary(toks_model(toks@), p as nat) == Ok::<(ExprS, nat), nat>(
                (expr_model(pair.0), pair.1 as nat),
            ) && pair.1 <= toks@.len(),
            Err(i) => sp_primary(toks_model(toks@), p as nat) == Err::<(ExprS, nat), nat>(
                i as nat,
            ),
        },
    decreases toks@.len() - p, 1int,
{
    proof {
        lemma_toks_model(toks@);
    }
    if p >= toks.len() {
        return Err(p);
    }
    match &toks[p].kind {
        TokKind::Num(text) => Ok((Expr::Number(text.clone()), p + 1)),
        TokKind::Ident(name) => {
            let lparen_next: bool = if p + 1 < toks.len() {
                match &toks[p + 1].kind {
                    TokKind::LParen => true,
                    _ => false,
                }
            } else {
                false
            };
            if lparen_next {
                match p_args(toks, p + 2) {
                    Err(i) => Err(i),
                    Ok((args, p2)) => {
                        let rparen_here: bool = if p2 < toks.len() {
                            match &toks[p2].kind {
                                TokKind::RParen => true,
                                _ => false,
                            }
                        } else {
                            false
                        };
                        if rparen_here {
                            Ok((Expr::FunctionCall { name: name.clone(), args }, p2 + 1))
                        } else {
                            Err(p2)
                        }
                    },
                }
            } else {
                Ok((Expr::Variable(name.clone()), p + 1))
            }
        },
        TokKind::LParen => {
            match p_expression(toks, p + 1) {
                Err(i) => Err(i),
                Ok((inner, p1)) => {
                    let rparen_here: bool = if p1 < toks.len() {
                        match &toks[p1].kind {
                            TokKind::RParen => true,
                            _ => false,
                        }
                    } else {
                        false
                    };
                    if rparen_here {
                        Ok((inner, p1 + 1))
                    } else {
                        Err(p1)
                    }
                },
            }
        },
        _ => Err(p),
    }
}

/// Implements [`sp_args`].
#[verifier::loop_isolation(false)]
fn p_args(toks: &Vec<Token>, p: usize) -> (r: Result<(Vec<Expr>, usize), usize>)
    requires
        p <= toks@.len(),
    ensures
        match r {
            Ok(pair) => sp_args(toks_model(toks@), p as nat) == Ok::<(Seq<ExprS>, nat), nat>(
                (exprs_model(pair.0@), pair.1 as nat),
            ) && pair.1 <= toks@.len(),
            Err(i) => sp_args(toks_model(toks@), p as nat) == Err::<(Seq<ExprS>, nat), nat>(
                i as nat,
            ),
        },
    decreases toks@.len() - p, 7int,
{
    proof {
        lemma_toks_model(toks@);
    }
    match p_expression(toks, p) {
        Err(i) => Err(i),
        Ok((first, p1)) => {
            let comma_here: bool = if p1 < toks.len() {
                match &toks[p1].kind {
                    TokKind::Comma => true,
                    _ => false,
                }
            } else {
                false
            };
            if p < p1 && comma_here {
                match p_args(toks, p1 + 1) {
                    Err(i) => Err(i),
                    Ok((rest, p2)) => {
                        let ghost rest0 = rest@;
                        let ghost first_m = expr_model(first);
                        let mut v: Vec<Expr> = Vec::new();
                        v.push(first);
                        let mut k: usize = 0;
                        while k < rest.len()
                            invariant
                                k <= rest@.len(),
                                rest@ == rest0,
                                v@.len() == k as nat + 1,
                                expr_model(v@[0]) == first_m,
                                forall|j: int|
                                    0 <= j < k ==> expr_model(v@[j + 1]) == expr_model(rest0[j]),
                            decreases rest@.len() - k,
                        {
                            let c = rest[k].dup();
                            v.push(c);
                            k = k + 1;
                        }
                        proof {
                            lemma_exprs_model(v@);
                            lemma_exprs_model(rest0);
                            assert(exprs_model(v@) =~= seq![first_m] + exprs_model(rest0));
                        }
                        Ok((v, p2))
                    },
                }
            } else if p < p1 {
                let ghost first_m = expr_model(first);
                let mut v: Vec<Expr> = Vec::new();
                v.push(first);
                proof {
                    lemma_exprs_model(v@);
                    assert(exprs_model(v@) =~= seq![first_m]);
                }
                Ok((v, p1))
            } else {
                Err(p1)
            }
        },
    }
}

/// Implements [`sp_statement`].
fn p_statement(toks: &Vec<Token>) -> (r: Result<Expr, usize>)
    ensures
        match r {
            Ok(e) => sp_statement(toks_model(toks@)) == Ok::<ExprS, nat>(expr_model(e)),
            Err(i) => sp_statement(toks_model(toks@)) == Err::<ExprS, nat>(i as nat),
        },
{
    proof {
        lemma_toks_model(toks@);
    }
    let n = toks.len();
    if n >= 5 {
        if let Some(fname) = tok_ident_name(&toks[0].kind) {
            let lp = matches!(&toks[1].kind, TokKind::LParen);
            let rp = matches!(&toks[3].kind, TokKind::RParen);
            let eq = matches!(&toks[4].kind, TokKind::Equal);
            if lp && rp && eq {
                if let Some(pname) = tok_ident_name(&toks[2].kind) {
                    return match p_expression(toks, 5) {
                        Err(i) => Err(i),
                        Ok((body, p)) => {
                            if p == n {
                                Ok(
                                    Expr::FunctionDef {
                                        name: fname,
                                        param: pname,
                                        body: Box::new(body),
                                    },
                                )
                            } else {
                                Err(p)
                            }
                        },
                    };
                }
            }
        }
    }
    if n >= 2 {
        if let Some(vname) = tok_ident_name(&toks[0].kind) {
            if matches!(&toks[1].kind, TokKind::Equal) {
                return match p_expression(toks, 2) {
                    Err(i) => Err(i),
                    Ok((value, p)) => {
                        if p == n {
                            Ok(Expr::Assignment { name: vname, value: Box::new(value) })
                        } else {
                            Err(p)
                        }
                    },
                };
            }
            let print_name: String = "print".to_owned();
            if vname == print_name {
                return match p_expression(toks, 1) {
                    Err(i) => Err(i),
                    Ok((inner, p)) => {
                        if p == n {
                            Ok(Expr::Print(Box::new(inner)))
                        } else {
                            Err(p)
                        }
                    },
                };
            }
        }
    }
    match p_expression(toks, 0) {
        Err(i) => Err(i),
        Ok((e, p)) => {
            if p == n {
                Ok(e)
            } else {
                Err(p)
            }
        },
    }
}

/// Parses one line of text into one statement, or fails with the position
/// where the grammar stopped matching.  Implements [`spec_parse`]; the parser
/// is pure and holds no state across calls.
pub fn parse(line: &str) -> (r: Result<Expr, SyntaxError>)
    ensures
        match r {
            Ok(e) => spec_parse(line@) == Ok::<ExprS, nat>(expr_model(e)),
            Err(se) => spec_parse(line@) == Err::<ExprS, nat>(se.pos as nat),
        },
{
    match tokenize(line) {
        Err(se) => Err(se),
        Ok(toks) => {
            proof {
                lemma_toks_model(toks@);
            }
            match p_statement(&toks) {
                Ok(e) => Ok(e),
                Err(idx) => {
                    let pos = if idx < toks.len() {
                        toks[idx].pos
                    } else {
                        line.unicode_len()
                    };
                    Err(SyntaxError { pos })
                },
            }
        },
    }
}

} // verus!
