//! Tests of the environment and the evaluator, including programs built by
//! hand rather than parsed.

use tiger::ast::{Expression, Identifier, LetStatement, PrintStatement, Program, Statement,
    StringLiteral};
use tiger::eval::{eval, Environment};

fn ident(name: &str) -> Expression {
    Expression::Identifier(Identifier { value: name.to_string() })
}

fn strlit(text: &str) -> Expression {
    Expression::StringLiteral(StringLiteral { value: text.to_string() })
}

fn let_stmt(name: &str, value: Expression) -> Statement {
    Statement::Let(LetStatement { name: Identifier { value: name.to_string() }, value })
}

fn print_stmt(value: Expression) -> Statement {
    Statement::Print(PrintStatement { value })
}

#[test]
fn environment_get_of_missing_name_is_none() {
    let env = Environment::new();
    assert!(env.get("x").is_none());
}

#[test]
fn environment_set_then_get() {
    let mut env = Environment::new();
    env.set("x".to_string(), "1".to_string());
    assert_eq!(env.get("x"), Some(&"1".to_string()));
    assert!(env.get("y").is_none());
}

#[test]
fn environment_overwrite_keeps_last_write() {
    let mut env = Environment::new();
    env.set("x".to_string(), "1".to_string());
    env.set("x".to_string(), "2".to_string());
    assert_eq!(env.get("x"), Some(&"2".to_string()));
}

#[test]
fn environment_keys_are_independent() {
    let mut env = Environment::new();
    env.set("x".to_string(), "1".to_string());
    env.set("y".to_string(), "2".to_string());
    env.set("x".to_string(), "3".to_string());
    assert_eq!(env.get("x"), Some(&"3".to_string()));
    assert_eq!(env.get("y"), Some(&"2".to_string()));
}

#[test]
fn environment_default_is_empty() {
    let env = Environment::default();
    assert!(env.get("x").is_none());
}

#[test]
fn eval_empty_program_gives_empty_output() {
    let program = Program::new();
    let mut env = Environment::new();
    assert_eq!(eval(&program, &mut env), "");
}

#[test]
fn eval_let_stores_and_print_reads() {
    let program = Program {
        statements: vec![let_stmt("x", strlit("hello")), print_stmt(ident("x"))],
    };
    let mut env = Environment::new();
    assert_eq!(eval(&program, &mut env), "hello");
    assert_eq!(env.get("x"), Some(&"hello".to_string()));
}

#[test]
fn eval_let_of_unbound_identifier_stores_the_placeholder() {
    let program = Program {
        statements: vec![let_stmt("x", ident("y")), print_stmt(ident("x"))],
    };
    let mut env = Environment::new();
    assert_eq!(eval(&program, &mut env), "[undefined variable: y]");
}

#[test]
fn eval_print_joins_lines_without_trailing_newline() {
    let program = Program {
        statements: vec![
            print_stmt(strlit("a")),
            print_stmt(strlit("b")),
            print_stmt(strlit("c")),
        ],
    };
    let mut env = Environment::new();
    assert_eq!(eval(&program, &mut env), "a\nb\nc");
}

#[test]
fn eval_uses_the_environment_it_is_given() {
    let mut env = Environment::new();
    env.set("x".to_string(), "seed".to_string());
    let program = Program { statements: vec![print_stmt(ident("x"))] };
    assert_eq!(eval(&program, &mut env), "seed");
}

#[test]
fn eval_empty_printed_values_still_count_as_lines() {
    let program = Program {
        statements: vec![print_stmt(strlit("")), print_stmt(strlit(""))],
    };
    let mut env = Environment::new();
    assert_eq!(eval(&program, &mut env), "\n");
}
