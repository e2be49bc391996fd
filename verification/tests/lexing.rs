//! Tests of the lexer: classification of every token shape, the lookahead
//! operators, string and numeric lexemes, and idempotence of scanning.

use tiger::lexer::{tokenize, Lexer};
use tiger::token::{Token, TokenType};

fn all_tokens(src: &str) -> Vec<Token> {
    let mut lexer = Lexer::new(src.to_string());
    let mut toks = Vec::new();
    loop {
        let t = lexer.next_token();
        if t.token_type == TokenType::Eof {
            return toks;
        }
        toks.push(t);
    }
}

#[test]
fn lexer_single_character_tokens() {
    let toks = all_tokens("= + - * / < > , ; ( ) { }");
    let expected = vec![
        (TokenType::Assign, "="),
        (TokenType::Plus, "+"),
        (TokenType::Minus, "-"),
        (TokenType::Asterisk, "*"),
        (TokenType::Slash, "/"),
        (TokenType::Lt, "<"),
        (TokenType::Gt, ">"),
        (TokenType::Comma, ","),
        (TokenType::Semicolon, ";"),
        (TokenType::LParen, "("),
        (TokenType::RParen, ")"),
        (TokenType::LBrace, "{"),
        (TokenType::RBrace, "}"),
    ];
    assert_eq!(toks.len(), expected.len());
    for (tok, (ty, lit)) in toks.iter().zip(expected.iter()) {
        assert_eq!(tok.token_type, *ty);
        assert_eq!(tok.literal, *lit);
    }
}

#[test]
fn lexer_two_character_operators() {
    let toks = all_tokens("== != <= >=");
    let expected = vec![
        (TokenType::Eq, "=="),
        (TokenType::NotEq, "!="),
        (TokenType::Lte, "<="),
        (TokenType::Gte, ">="),
    ];
    assert_eq!(toks.len(), expected.len());
    for (tok, (ty, lit)) in toks.iter().zip(expected.iter()) {
        assert_eq!(tok.token_type, *ty);
        assert_eq!(tok.literal, *lit);
    }
}

#[test]
fn lexer_bare_bang_is_illegal() {
    let toks = all_tokens("!");
    assert_eq!(toks.len(), 1);
    assert_eq!(toks[0].token_type, TokenType::Illegal);
    assert_eq!(toks[0].literal, "!");
}

#[test]
fn lexer_keywords_and_identifiers() {
    let toks = all_tokens("let print if else while true false func foo _bar1 Let");
    let expected = vec![
        (TokenType::Let, "let"),
        (TokenType::Print, "print"),
        (TokenType::If, "if"),
        (TokenType::Else, "else"),
        (TokenType::While, "while"),
        (TokenType::True, "true"),
        (TokenType::False, "false"),
        (TokenType::Func, "func"),
        (TokenType::Ident, "foo"),
        (TokenType::Ident, "_bar1"),
        (TokenType::Ident, "Let"),
    ];
    assert_eq!(toks.len(), expected.len());
    for (tok, (ty, lit)) in toks.iter().zip(expected.iter()) {
        assert_eq!(tok.token_type, *ty);
        assert_eq!(tok.literal, *lit);
    }
}

#[test]
fn lexer_integer_and_float_literals() {
    let toks = all_tokens("42 1.5");
    assert_eq!(toks.len(), 2);
    assert_eq!(toks[0].token_type, TokenType::Int);
    assert_eq!(toks[0].literal, "42");
    assert_eq!(toks[1].token_type, TokenType::Float);
    assert_eq!(toks[1].literal, "1.5");
}

#[test]
fn lexer_second_decimal_point_ends_the_number() {
    let toks = all_tokens("1.2.3");
    assert_eq!(toks.len(), 3);
    assert_eq!(toks[0].token_type, TokenType::Float);
    assert_eq!(toks[0].literal, "1.2");
    assert_eq!(toks[1].token_type, TokenType::Illegal);
    assert_eq!(toks[1].literal, ".");
    assert_eq!(toks[2].token_type, TokenType::Int);
    assert_eq!(toks[2].literal, "3");
}

#[test]
fn lexer_string_literal_excludes_quotes() {
    let toks = all_tokens("\"hi there\"");
    assert_eq!(toks.len(), 1);
    assert_eq!(toks[0].token_type, TokenType::String);
    assert_eq!(toks[0].literal, "hi there");
}

#[test]
fn lexer_unterminated_string_consumes_to_end_of_input() {
    let toks = all_tokens("\"abc");
    assert_eq!(toks.len(), 1);
    assert_eq!(toks[0].token_type, TokenType::String);
    assert_eq!(toks[0].literal, "abc");
}

#[test]
fn lexer_backslash_does_not_escape_a_quote() {
    let toks = all_tokens("\"a\\\"");
    assert_eq!(toks.len(), 1);
    assert_eq!(toks[0].token_type, TokenType::String);
    assert_eq!(toks[0].literal, "a\\");
}

#[test]
fn lexer_unrecognized_character_is_illegal() {
    let toks = all_tokens("@");
    assert_eq!(toks.len(), 1);
    assert_eq!(toks[0].token_type, TokenType::Illegal);
    assert_eq!(toks[0].literal, "@");
}

#[test]
fn lexer_end_marker_repeats_past_end_of_input() {
    let mut lexer = Lexer::new("x".to_string());
    assert_eq!(lexer.next_token().token_type, TokenType::Ident);
    for _ in 0..3 {
        let t = lexer.next_token();
        assert_eq!(t.token_type, TokenType::Eof);
        assert_eq!(t.literal, "");
    }
}

#[test]
fn lexer_skips_unicode_whitespace() {
    let toks = all_tokens(" \t\r\n\u{00A0}\u{2028}x\u{3000}y");
    assert_eq!(toks.len(), 2);
    assert_eq!(toks[0].literal, "x");
    assert_eq!(toks[1].literal, "y");
}

#[test]
fn lexing_is_idempotent() {
    let src = "let x = \"hi\"; print x; 1.2.3 == != ! @ \"open";
    let first = all_tokens(src);
    let second = all_tokens(src);
    assert_eq!(first, second);
    let third = tokenize(src);
    let fourth = tokenize(src);
    assert_eq!(third, fourth);
    assert_eq!(first, third);
}

#[test]
fn tokenize_matches_token_by_token_scanning() {
    let src = "print foo; let a = 7;";
    assert_eq!(tokenize(src), all_tokens(src));
}
