//! End-to-end tests: parse a line, evaluate it, and reduce the resulting
//! symbolic term to an f64, the way a driver does.

use minicalc::ast::{BinOp, Expr};
use minicalc::env::Env;
use minicalc::eval::{evaluate, EvalError};
use minicalc::parse::parse;
use minicalc::term::Term;

/// Reduces a closed symbolic term to a machine number.
fn value_of(t: &Term) -> f64 {
    match t {
        Term::Lit(s) => s.parse::<f64>().unwrap(),
        Term::Pi => std::f64::consts::PI,
        Term::E => std::f64::consts::E,
        Term::Zero => 0.0,
        Term::Neg(a) => -value_of(a),
        Term::Bin { op, left, right } => {
            let l = value_of(left);
            let r = value_of(right);
            match op {
                BinOp::Add => l + r,
                BinOp::Sub => l - r,
                BinOp::Mul => l * r,
                BinOp::Div => l / r,
                BinOp::Pow => l.powf(r),
            }
        }
        Term::Sin(a) => value_of(a).sin(),
        Term::Cos(a) => value_of(a).cos(),
        Term::Max(a, b) => f64::max(value_of(a), value_of(b)),
    }
}

/// Parses and evaluates one line, as the drivers do.
fn run(line: &str, env: &mut Env, out: &mut Vec<Term>) -> Result<f64, EvalError> {
    let tree = parse(line).expect("line should parse");
    evaluate(&tree, env, out, 64).map(|t| value_of(&t))
}

/// One line on a fresh environment.
fn run_fresh(line: &str) -> Result<f64, EvalError> {
    let mut env = Env::new();
    let mut out = Vec::new();
    run(line, &mut env, &mut out)
}

#[test]
fn literal_round_trip() {
    assert_eq!(run_fresh("3.25").unwrap(), 3.25);
    assert_eq!(run_fresh("42").unwrap(), 42.0);
    assert_eq!(run_fresh("0.5").unwrap(), 0.5);
}

#[test]
fn assignment_round_trip() {
    let mut env = Env::new();
    let mut out = Vec::new();
    assert_eq!(run("x = 5", &mut env, &mut out).unwrap(), 5.0);
    assert_eq!(run("x", &mut env, &mut out).unwrap(), 5.0);
}

#[test]
fn assignment_overwrites() {
    let mut env = Env::new();
    let mut out = Vec::new();
    run("x = 1", &mut env, &mut out).unwrap();
    run("x = 2", &mut env, &mut out).unwrap();
    assert_eq!(run("x", &mut env, &mut out).unwrap(), 2.0);
}

#[test]
fn power_is_left_associative() {
    assert_eq!(run_fresh("2^3^2").unwrap(), 64.0);
}

#[test]
fn power_parse_tree_folds_left() {
    let tree = parse("2^3^2").unwrap();
    let expected = Expr::BinaryOp {
        op: BinOp::Pow,
        left: Box::new(Expr::BinaryOp {
            op: BinOp::Pow,
            left: Box::new(Expr::Number("2".to_string())),
            right: Box::new(Expr::Number("3".to_string())),
        }),
        right: Box::new(Expr::Number("2".to_string())),
    };
    assert_eq!(tree, expected);
}

#[test]
fn undefined_variable_fails() {
    assert_eq!(
        run_fresh("y").unwrap_err(),
        EvalError::UndefinedVariable("y".to_string())
    );
}

#[test]
fn function_definition_and_call() {
    let mut env = Env::new();
    let mut out = Vec::new();
    assert_eq!(run("f(x) = x * 2", &mut env, &mut out).unwrap(), 0.0);
    assert_eq!(run("f(10)", &mut env, &mut out).unwrap(), 20.0);
}

#[test]
fn later_definition_overwrites() {
    let mut env = Env::new();
    let mut out = Vec::new();
    run("f(x) = x", &mut env, &mut out).unwrap();
    run("f(x) = x + 1", &mut env, &mut out).unwrap();
    assert_eq!(run("f(1)", &mut env, &mut out).unwrap(), 2.0);
}

#[test]
fn arity_mismatch_by_text() {
    let mut env = Env::new();
    let mut out = Vec::new();
    run("f(x) = x", &mut env, &mut out).unwrap();
    assert_eq!(
        run("f(1, 2)", &mut env, &mut out).unwrap_err(),
        EvalError::ArityMismatch {
            name: "f".to_string(),
            expected: 1,
            got: 2,
        }
    );
}

#[test]
fn arity_check_precedes_argument_evaluation() {
    let mut env = Env::new();
    let mut out = Vec::new();
    run("g(x) = x", &mut env, &mut out).unwrap();
    // A side-effecting argument, built as a tree since assignment is a
    // statement form in the written grammar: g(z = 7, 2).
    let call = Expr::FunctionCall {
        name: "g".to_string(),
        args: vec![
            Expr::Assignment {
                name: "z".to_string(),
                value: Box::new(Expr::Number("7".to_string())),
            },
            Expr::Number("2".to_string()),
        ],
    };
    assert_eq!(
        evaluate(&call, &mut env, &mut out, 64).unwrap_err(),
        EvalError::ArityMismatch {
            name: "g".to_string(),
            expected: 1,
            got: 2,
        }
    );
    // The argument was not evaluated: z is still unbound.
    assert_eq!(
        run("z", &mut env, &mut out).unwrap_err(),
        EvalError::UndefinedVariable("z".to_string())
    );
}

#[test]
fn reserved_constants() {
    assert!((run_fresh("pi").unwrap() - 3.14159265358979).abs() < 1e-11);
    assert!((run_fresh("e").unwrap() - std::f64::consts::E).abs() < 1e-15);
}

#[test]
fn reserved_constants_shadow_assignments() {
    let mut env = Env::new();
    let mut out = Vec::new();
    // The assignment succeeds and yields its value ...
    assert_eq!(run("pi = 99", &mut env, &mut out).unwrap(), 99.0);
    // ... but the constant is checked ahead of the variable bindings.
    assert!((run("pi", &mut env, &mut out).unwrap() - std::f64::consts::PI).abs() < 1e-15);
}

#[test]
fn user_definition_shadows_builtin() {
    let mut env = Env::new();
    let mut out = Vec::new();
    run("sin(x) = 0", &mut env, &mut out).unwrap();
    assert_eq!(run("sin(1)", &mut env, &mut out).unwrap(), 0.0);
}

#[test]
fn builtin_functions() {
    assert_eq!(run_fresh("sin(0)").unwrap(), 0.0);
    assert_eq!(run_fresh("sin(1)").unwrap(), 1.0_f64.sin());
    assert_eq!(run_fresh("cos(0)").unwrap(), 1.0);
    assert_eq!(run_fresh("max(2, 7)").unwrap(), 7.0);
    assert_eq!(run_fresh("max(7, 2)").unwrap(), 7.0);
}

#[test]
fn builtin_with_wrong_arity_is_unknown() {
    assert_eq!(
        run_fresh("max(1)").unwrap_err(),
        EvalError::UnknownFunction("max".to_string())
    );
    assert_eq!(
        run_fresh("sin(1, 2)").unwrap_err(),
        EvalError::UnknownFunction("sin".to_string())
    );
}

#[test]
fn unknown_function() {
    assert_eq!(
        run_fresh("foo(1)").unwrap_err(),
        EvalError::UnknownFunction("foo".to_string())
    );
}

#[test]
fn argument_error_precedes_builtin_dispatch() {
    // Arguments of a non-user call are evaluated before the name is checked.
    assert_eq!(
        run_fresh("foo(y)").unwrap_err(),
        EvalError::UndefinedVariable("y".to_string())
    );
}

#[test]
fn print_returns_and_records_value() {
    let mut env = Env::new();
    let mut out = Vec::new();
    assert_eq!(run("print 1 + 2", &mut env, &mut out).unwrap(), 3.0);
    assert_eq!(out.len(), 1);
    assert_eq!(value_of(&out[0]), 3.0);
}

#[test]
fn print_is_a_variable_like_name() {
    let mut env = Env::new();
    let mut out = Vec::new();
    // Assignment is tried before the print statement, so this binds a
    // variable named print ...
    assert_eq!(run("print = 5", &mut env, &mut out).unwrap(), 5.0);
    // ... and a bare `print` reads it back as an expression.
    assert_eq!(run("print", &mut env, &mut out).unwrap(), 5.0);
}

#[test]
fn precedence_and_associativity() {
    assert_eq!(run_fresh("1 + 2 * 3").unwrap(), 7.0);
    assert_eq!(run_fresh("(1 + 2) * 3").unwrap(), 9.0);
    assert_eq!(run_fresh("2 - 3 - 4").unwrap(), -5.0);
    assert_eq!(run_fresh("8 / 4 / 2").unwrap(), 1.0);
}

#[test]
fn unary_binds_tighter_than_power() {
    assert_eq!(run_fresh("-2^2").unwrap(), 4.0);
    assert_eq!(run_fresh("+5").unwrap(), 5.0);
    assert_eq!(run_fresh("-5").unwrap(), -5.0);
}

#[test]
fn division_by_zero_is_infinite() {
    assert!(run_fresh("1 / 0").unwrap().is_infinite());
}

#[test]
fn call_local_environment_snapshots_caller() {
    let mut env = Env::new();
    let mut out = Vec::new();
    run("x = 1", &mut env, &mut out).unwrap();
    run("f(y) = y + x", &mut env, &mut out).unwrap();
    assert_eq!(run("f(2)", &mut env, &mut out).unwrap(), 3.0);
}

#[test]
fn call_local_bindings_are_discarded() {
    let mut env = Env::new();
    let mut out = Vec::new();
    run("x = 4", &mut env, &mut out).unwrap();
    run("g(x) = x * 10", &mut env, &mut out).unwrap();
    assert_eq!(run("g(5)", &mut env, &mut out).unwrap(), 50.0);
    assert_eq!(run("x", &mut env, &mut out).unwrap(), 4.0);
}

#[test]
fn user_functions_may_call_each_other() {
    let mut env = Env::new();
    let mut out = Vec::new();
    run("f(x) = x + 1", &mut env, &mut out).unwrap();
    run("h(x) = f(x) * 2", &mut env, &mut out).unwrap();
    assert_eq!(run("h(3)", &mut env, &mut out).unwrap(), 8.0);
}

#[test]
fn unbounded_recursion_hits_the_limit() {
    let mut env = Env::new();
    let mut out = Vec::new();
    run("r(x) = r(x)", &mut env, &mut out).unwrap();
    assert_eq!(
        run("r(1)", &mut env, &mut out).unwrap_err(),
        EvalError::RecursionLimitExceeded
    );
}

#[test]
fn identifiers_may_hold_digits_and_underscores() {
    let mut env = Env::new();
    let mut out = Vec::new();
    run("a_1 = 2", &mut env, &mut out).unwrap();
    assert_eq!(run("a_1", &mut env, &mut out).unwrap(), 2.0);
}

#[test]
fn whitespace_is_ignored_between_tokens() {
    assert_eq!(run_fresh("  1 +  2 ").unwrap(), 3.0);
}

#[test]
fn syntax_error_positions() {
    assert_eq!(parse("").unwrap_err().pos, 0);
    assert_eq!(parse("$").unwrap_err().pos, 0);
    assert_eq!(parse("2 $").unwrap_err().pos, 2);
    assert_eq!(parse("2 +").unwrap_err().pos, 3);
    assert_eq!(parse("()").unwrap_err().pos, 1);
    assert_eq!(parse("1.").unwrap_err().pos, 1);
}

#[test]
fn trailing_tokens_are_an_error() {
    assert!(parse("1 2").is_err());
    assert!(parse("f(x+1) = 2").is_err());
}

#[test]
fn statement_shapes() {
    assert!(matches!(parse("f(x) = x").unwrap(), Expr::FunctionDef { .. }));
    assert!(matches!(parse("x = 1").unwrap(), Expr::Assignment { .. }));
    assert!(matches!(parse("print 1").unwrap(), Expr::Print(_)));
    assert!(matches!(parse("print(1)").unwrap(), Expr::Print(_)));
    assert!(matches!(parse("f(1)").unwrap(), Expr::FunctionCall { .. }));
    assert!(matches!(parse("1 + 1").unwrap(), Expr::BinaryOp { .. }));
}

#[test]
fn definition_evaluates_to_zero() {
    assert_eq!(run_fresh("q(x) = x ^ 2").unwrap(), 0.0);
}
