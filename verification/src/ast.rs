//! The expression tree that the parser produces and the evaluator walks.
//!
//! A statement is simply an expression: the variants that only make sense at
//! the top level of a line (`Assignment`, `FunctionDef`, `Print`) are ordinary
//! tree nodes, produced by the parser only at the root.

use vstd::prelude::*;

verus! {

broadcast use vstd::std_specs::vec::axiom_vec_index_decreases;

/// Unary operators: a leading `+` or `-`.
#[derive(Clone, Copy, Debug, PartialEq, Eq, Structural)]
pub enum UnOp {
    Plus,
    Neg,
}

/// Binary operators, all left-associative: `+ - * / ^`.
#[derive(Clone, Copy, Debug, PartialEq, Eq, Structural)]
pub enum BinOp {
    Add,
    Sub,
    Mul,
    Div,
    Pow,
}

/// One node of the expression tree.  Each node exclusively owns its children.
/// A numeric literal keeps its source text; this crate never turns it into a
/// machine number.
#[derive(Debug, PartialEq)]
pub enum Expr {
    Number(String),
    Variable(String),
    UnaryOp { op: UnOp, expr: Box<Expr> },
    BinaryOp { op: BinOp, left: Box<Expr>, right: Box<Expr> },
    FunctionCall { name: String, args: Vec<Expr> },
    Assignment { name: String, value: Box<Expr> },
    FunctionDef { name: String, param: String, body: Box<Expr> },
    Print(Box<Expr>),
}

/// The mathematical model of an [`Expr`]: the same tree with every piece of
/// text abstracted to a sequence of characters.  Contracts speak of this type.
pub enum ExprS {
    Number { text: Seq<char> },
    Variable { name: Seq<char> },
    UnaryOp { op: UnOp, expr: Box<ExprS> },
    BinaryOp { op: BinOp, left: Box<ExprS>, right: Box<ExprS> },
    FunctionCall { name: Seq<char>, args: Seq<ExprS> },
    Assignment { name: Seq<char>, value: Box<ExprS> },
    FunctionDef { name: Seq<char>, param: Seq<char>, body: Box<ExprS> },
    Print { expr: Box<ExprS> },
}

/// The model of an expression tree.
pub open spec fn expr_model(e: Expr) -> ExprS
    decreases e,
{
    match e {
        Expr::Number(t) => ExprS::Number { text: t@ },
        Expr::Variable(n) => ExprS::Variable { name: n@ },
        Expr::UnaryOp { op, expr } => ExprS::UnaryOp { op, expr: Box::new(expr_model(*expr)) },
        Expr::BinaryOp { op, left, right } => ExprS::BinaryOp {
            op,
            left: Box::new(expr_model(*left)),
            right: Box::new(expr_model(*right)),
        },
        Expr::FunctionCall { name, args } => ExprS::FunctionCall {
            name: name@,
            args: exprs_model(args@),
        },
        Expr::Assignment { name, value } => ExprS::Assignment {
            name: name@,
            value: Box::new(expr_model(*value)),
        },
        Expr::FunctionDef { name, param, body } => ExprS::FunctionDef {
            name: name@,
            param: param@,
            body: Box::new(expr_model(*body)),
        },
        Expr::Print(e) => ExprS::Print { expr: Box::new(expr_model(*e)) },
    }
}

/// The models of a list of expressions, in order.
pub open spec fn exprs_model(s: Seq<Expr>) -> Seq<ExprS>
    decreases s,
{
    if s.len() == 0 {
        Seq::empty()
    } else {
        seq![expr_model(s[0])] + exprs_model(s.drop_first())
    }
}

pub proof fn lemma_exprs_model(s: Seq<Expr>)
    ensures
        exprs_model(s).len() == s.len(),
        forall|i: int| 0 <= i < s.len() ==> exprs_model(s)[i] == expr_model(s[i]),
    decreases s.len(),
{
    if s.len() > 0 {
        lemma_exprs_model(s.drop_first());
    }
}

/// How many nodes an expression has; the evaluator's structural measure.
pub open spec fn expr_size(e: ExprS) -> nat
    decreases e,
{
    match e {
        ExprS::Number { .. } => 1,
        ExprS::Variable { .. } => 1,
        ExprS::UnaryOp { expr, .. } => 1 + expr_size(*expr),
        ExprS::BinaryOp { left, right, .. } => 1 + expr_size(*left) + expr_size(*right),
        ExprS::FunctionCall { args, .. } => 1 + exprs_size(args),
        ExprS::Assignment { value, .. } => 1 + expr_size(*value),
        ExprS::FunctionDef { body, .. } => 1 + expr_size(*body),
        ExprS::Print { expr } => 1 + expr_size(*expr),
    }
}

/// The total size of a list of expressions.
pub open spec fn exprs_size(s: Seq<ExprS>) -> nat
    decreases s,
{
    if s.len() == 0 {
        0
    } else {
        1 + expr_size(s[0]) + exprs_size(s.drop_first())
    }
}

pub proof fn lemma_exprs_size_index(s: Seq<ExprS>, i: int)
    requires
        0 <= i < s.len(),
    ensures
        expr_size(s[i]) < exprs_size(s),
    decreases s.len(),
{
    if i > 0 {
        lemma_exprs_size_index(s.drop_first(), i - 1);
    }
}

impl Expr {
    /// A deep copy; the copy has the same model as the original.
    #[verifier::loop_isolation(false)]
    pub fn dup(&self) -> (r: Expr)
        ensures
            expr_model(r) == expr_model(*self),
        decreases expr_size(expr_model(*self)),
    {
        match self {
            Expr::Number(t) => Expr::Number(t.clone()),
            Expr::Variable(n) => Expr::Variable(n.clone()),
            Expr::UnaryOp { op, expr } => Expr::UnaryOp { op: *op, expr: Box::new(expr.dup()) },
            Expr::BinaryOp { op, left, right } => Expr::BinaryOp {
                op: *op,
                left: Box::new(left.dup()),
                right: Box::new(right.dup()),
            },
            Expr::FunctionCall { name, args } => {
                let mut copied: Vec<Expr> = Vec::new();
                let mut i: usize = 0;
                while i < args.len()
                    invariant
                        i <= args.len(),
                        copied@.len() == i as nat,
                        forall|j: int|
                            0 <= j < i ==> expr_model(copied@[j]) == expr_model(args@[j]),
                    decreases args.len() - i,
                {
                    proof {
                        lemma_exprs_model(args@);
                        lemma_exprs_size_index(exprs_model(args@), i as int);
                    }
                    let c = args[i].dup();
                    copied.push(c);
                    i = i + 1;
                }
                proof {
                    lemma_exprs_model(copied@);
                    lemma_exprs_model(args@);
                    assert(exprs_model(copied@) =~= exprs_model(args@));
                }
                Expr::FunctionCall { name: name.clone(), args: copied }
            },
            Expr::Assignment { name, value } => Expr::Assignment {
                name: name.clone(),
                value: Box::new(value.dup()),
            },
            Expr::FunctionDef { name, param, body } => Expr::FunctionDef {
                name: name.clone(),
                param: param.clone(),
                body: Box::new(body.dup()),
            },
            Expr::Print(e) => Expr::Print(Box::new(e.dup())),
        }
    }
}

} // verus!
