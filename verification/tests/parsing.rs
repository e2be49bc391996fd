//! Tests of the parser: the two statement forms, the silent skipping of
//! everything else, and the absence of structural validation.

use tiger::ast::{Expression, Statement};
use tiger::lexer::Lexer;
use tiger::parser::Parser;
use tiger::token::{Token, TokenType};

#[test]
fn parser_builds_let_and_print_statements() {
    let lexer = Lexer::new("let x = \"a\"; print x;".to_string());
    let mut parser = Parser::new(lexer);
    let program = parser.parse_program();
    assert_eq!(program.statements.len(), 2);
    match &program.statements[0] {
        Statement::Let(l) => {
            assert_eq!(l.name.value, "x");
            match &l.value {
                Expression::StringLiteral(s) => assert_eq!(s.value, "a"),
                Expression::Identifier(_) => panic!("let value should be a string literal"),
            }
        },
        Statement::Print(_) => panic!("first statement should be a let"),
    }
    match &program.statements[1] {
        Statement::Print(p) => match &p.value {
            Expression::Identifier(i) => assert_eq!(i.value, "x"),
            Expression::StringLiteral(_) => panic!("print value should be an identifier"),
        },
        Statement::Let(_) => panic!("second statement should be a print"),
    }
}

#[test]
fn parser_skips_tokens_that_open_no_statement() {
    let lexer = Lexer::new("while x < 3 { } if else func , ;".to_string());
    let mut parser = Parser::new(lexer);
    let program = parser.parse_program();
    assert_eq!(program.statements.len(), 0);
}

#[test]
fn parser_empty_source_gives_empty_program() {
    let lexer = Lexer::new(String::new());
    let mut parser = Parser::new(lexer);
    let program = parser.parse_program();
    assert_eq!(program.statements.len(), 0);
}

#[test]
fn parser_takes_name_position_verbatim() {
    let lexer = Lexer::new("let 5 = \"v\";".to_string());
    let mut parser = Parser::new(lexer);
    let program = parser.parse_program();
    assert_eq!(program.statements.len(), 1);
    match &program.statements[0] {
        Statement::Let(l) => assert_eq!(l.name.value, "5"),
        Statement::Print(_) => panic!("statement should be a let"),
    }
}

#[test]
fn parser_does_not_check_the_assign_position() {
    let lexer = Lexer::new("let x y z;".to_string());
    let mut parser = Parser::new(lexer);
    let program = parser.parse_program();
    assert_eq!(program.statements.len(), 1);
    match &program.statements[0] {
        Statement::Let(l) => {
            assert_eq!(l.name.value, "x");
            match &l.value {
                Expression::StringLiteral(s) => assert_eq!(s.value, "z"),
                Expression::Identifier(_) => panic!("let value should be a string literal"),
            }
        },
        Statement::Print(_) => panic!("statement should be a let"),
    }
}

#[test]
fn parser_let_at_end_of_input_uses_end_marker_literals() {
    let lexer = Lexer::new("let".to_string());
    let mut parser = Parser::new(lexer);
    let program = parser.parse_program();
    assert_eq!(program.statements.len(), 1);
    match &program.statements[0] {
        Statement::Let(l) => {
            assert_eq!(l.name.value, "");
            match &l.value {
                Expression::StringLiteral(s) => assert_eq!(s.value, ""),
                Expression::Identifier(_) => panic!("let value should be a string literal"),
            }
        },
        Statement::Print(_) => panic!("statement should be a let"),
    }
}

#[test]
fn token_equality_compares_category_and_literal() {
    let a = Token::new(TokenType::Ident, "x");
    let b = Token::new(TokenType::Ident, "x");
    let c = Token::new(TokenType::Ident, "y");
    let d = Token::new(TokenType::String, "x");
    assert_eq!(a, b);
    assert_ne!(a, c);
    assert_ne!(a, d);
}

#[test]
fn lookup_ident_classifies_reserved_words() {
    assert_eq!(TokenType::lookup_ident("let"), TokenType::Let);
    assert_eq!(TokenType::lookup_ident("print"), TokenType::Print);
    assert_eq!(TokenType::lookup_ident("if"), TokenType::If);
    assert_eq!(TokenType::lookup_ident("else"), TokenType::Else);
    assert_eq!(TokenType::lookup_ident("while"), TokenType::While);
    assert_eq!(TokenType::lookup_ident("true"), TokenType::True);
    assert_eq!(TokenType::lookup_ident("false"), TokenType::False);
    assert_eq!(TokenType::lookup_ident("func"), TokenType::Func);
    assert_eq!(TokenType::lookup_ident("foo"), TokenType::Ident);
    assert_eq!(TokenType::lookup_ident("Let"), TokenType::Ident);
    assert_eq!(TokenType::lookup_ident(""), TokenType::Ident);
}

#[test]
fn token_new_keeps_category_and_literal() {
    let t = Token::new(TokenType::Semicolon, ";");
    assert_eq!(t.token_type, TokenType::Semicolon);
    assert_eq!(t.literal, ";");
}
