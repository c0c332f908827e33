//! Symbolic numeric terms: what evaluation returns.
//!
//! The evaluator never inspects a number, so a result is a closed numeric
//! term: a literal's text, one of the constants, the no-op sentinel `Zero`
//! (the result of a function definition, whose value is zero), or an
//! arithmetic operation over smaller terms.  A driver reduces a term to a
//! machine number; equal terms reduce to equal numbers.

use vstd::prelude::*;

use crate::ast::BinOp;

verus! {

/// A closed numeric term.
#[derive(Debug, PartialEq)]
pub enum Term {
    /// A numeric literal, kept as its source text.
    Lit(String),
    /// The circle constant pi.
    Pi,
    /// Euler's number e.
    E,
    /// The zero value: the defined no-op sentinel of a function definition.
    Zero,
    /// Negation, from the unary `-` operator.
    Neg(Box<Term>),
    /// A binary arithmetic operation.
    Bin { op: BinOp, left: Box<Term>, right: Box<Term> },
    /// The built-in sine, in radians.
    Sin(Box<Term>),
    /// The built-in cosine, in radians.
    Cos(Box<Term>),
    /// The built-in maximum of two values.
    Max(Box<Term>, Box<Term>),
}

/// The mathematical model of a [`Term`].
pub enum TermS {
    Lit { text: Seq<char> },
    Pi,
    E,
    Zero,
    Neg(Box<TermS>),
    Bin { op: BinOp, left: Box<TermS>, right: Box<TermS> },
    Sin(Box<TermS>),
    Cos(Box<TermS>),
    Max(Box<TermS>, Box<TermS>),
}

/// The model of a term.
pub open spec fn term_model(t: Term) -> TermS
    decreases t,
{
    match t {
        Term::Lit(s) => TermS::Lit { text: s@ },
        Term::Pi => TermS::Pi,
        Term::E => TermS::E,
        Term::Zero => TermS::Zero,
        Term::Neg(a) => TermS::Neg(Box::new(term_model(*a))),
        Term::Bin { op, left, right } => TermS::Bin {
            op,
            left: Box::new(term_model(*left)),
            right: Box::new(term_model(*right)),
        },
        Term::Sin(a) => TermS::Sin(Box::new(term_model(*a))),
        Term::Cos(a) => TermS::Cos(Box::new(term_model(*a))),
        Term::Max(a, b) => TermS::Max(Box::new(term_model(*a)), Box::new(term_model(*b))),
    }
}

/// The models of a list of terms, in order.
pub open spec fn terms_model(s: Seq<Term>) -> Seq<TermS>
    decreases s,
{
    if s.len() == 0 {
        Seq::empty()
    } else {
        terms_model(s.drop_last()).push(term_model(s.last()))
    }
}

pub proof fn lemma_terms_model_push(s: Seq<Term>, t: Term)
    ensures
        terms_model(s.push(t)) == terms_model(s).push(term_model(t)),
{
    assert(s.push(t).drop_last() =~= s);
}

pub proof fn lemma_terms_model_len(s: Seq<Term>)
    ensures
        terms_model(s).len() == s.len(),
    decreases s.len(),
{
    if s.len() > 0 {
        lemma_terms_model_len(s.drop_last());
    }
}

impl Term {
    /// A deep copy; the copy has the same model as the original.
    pub fn dup(&self) -> (r: Term)
        ensures
            term_model(r) == term_model(*self),
        decreases self,
    {
        match self {
            Term::Lit(s) => Term::Lit(s.clone()),
            Term::Pi => Term::Pi,
            Term::E => Term::E,
            Term::Zero => Term::Zero,
            Term::Neg(a) => Term::Neg(Box::new(a.dup())),
            Term::Bin { op, left, right } => Term::Bin {
                op: *op,
                left: Box::new(left.dup()),
                right: Box::new(right.dup()),
            },
            Term::Sin(a) => Term::Sin(Box::new(a.dup())),
            Term::Cos(a) => Term::Cos(Box::new(a.dup())),
            Term::Max(a, b) => Term::Max(Box::new(a.dup()), Box::new(b.dup())),
        }
    }
}

} // verus!
