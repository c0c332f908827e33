//! A small calculator language.
//!
//! One line of source text is parsed into an expression tree ([`ast::Expr`])
//! and evaluated against a mutable environment of variables and user-defined
//! functions ([`env::Env`]).  Numbers are opaque to this crate: the evaluator
//! never inspects a numeric value, so evaluation returns a symbolic numeric
//! term ([`term::Term`]) built from literals, the constants pi and e, and the
//! arithmetic operations.  A driver reduces such a term to a machine number.

pub mod ast;
pub mod env;
pub mod eval;
pub mod laws;
pub mod parse;
pub mod term;
pub mod token;
