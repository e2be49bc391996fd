//! The token model: the closed set of lexical categories, and tokens as a
//! category paired with the literal text the lexeme was scanned from.

use vstd::prelude::*;

use crate::text::str_eq;

verus! {

/// The closed set of lexical categories.
#[derive(Debug, Clone, Copy, PartialEq, Eq, Structural)]
pub enum TokenType {
    Illegal,
    Eof,
    // Identifiers + literals
    Ident,
    Int,
    Float,
    String,
    // Operators
    Assign,
    Plus,
    Minus,
    Asterisk,
    Slash,
    Eq,
    NotEq,
    Lt,
    Lte,
    Gt,
    Gte,
    // Delimiters
    Comma,
    Semicolon,
    LParen,
    RParen,
    LBrace,
    RBrace,
    // Keywords
    Let,
    Print,
    If,
    Else,
    While,
    True,
    False,
    Func,
}

/// The mathematical image of a token: its category and the literal text as a
/// sequence of characters.
pub struct TokenView {
    pub ty: TokenType,
    pub lit: Seq<char>,
}

/// A classified unit of lexical text: a category together with the literal
/// text. For delimiters and operators the literal is the canonical symbol;
/// for identifiers and literals it is the scanned text verbatim (string
/// literals exclude their delimiting quotes).
#[derive(Debug, Clone)]
pub struct Token {
    pub token_type: TokenType,
    pub literal: String,
}

impl View for Token {
    type V = TokenView;

    open spec fn view(&self) -> TokenView {
        TokenView { ty: self.token_type, lit: self.literal@ }
    }
}

impl PartialEq for Token {
    fn eq(&self, other: &Token) -> bool {
        self.token_type == other.token_type && str_eq(self.literal.as_str(), other.literal.as_str())
    }
}

impl vstd::std_specs::cmp::PartialEqSpecImpl for Token {
    open spec fn obeys_eq_spec() -> bool {
        true
    }

    open spec fn eq_spec(&self, other: &Token) -> bool {
        self.token_type == other.token_type && self.literal@ == other.literal@
    }
}

impl Token {
    pub fn new(token_type: TokenType, literal: &str) -> (t: Token)
        ensures
            t@.ty == token_type,
            t@.lit == literal@,
    {
        Token { token_type, literal: literal.to_owned() }
    }
}

/// The category an identifier-shaped lexeme is classified as: its keyword
/// category if it matches one of the eight reserved words exactly
/// (case-sensitive), else the generic identifier category.
pub open spec fn lookup_spec(s: Seq<char>) -> TokenType {
    if s == "let"@ {
        TokenType::Let
    } else if s == "print"@ {
        TokenType::Print
    } else if s == "if"@ {
        TokenType::If
    } else if s == "else"@ {
        TokenType::Else
    } else if s == "while"@ {
        TokenType::While
    } else if s == "true"@ {
        TokenType::True
    } else if s == "false"@ {
        TokenType::False
    } else if s == "func"@ {
        TokenType::Func
    } else {
        TokenType::Ident
    }
}

impl TokenType {
    pub fn lookup_ident(ident: &str) -> (t: TokenType)
        ensures
            t == lookup_spec(ident@),
    {
        if str_eq(ident, "let") {
            TokenType::Let
        } else if str_eq(ident, "print") {
            TokenType::Print
        } else if str_eq(ident, "if") {
            TokenType::If
        } else if str_eq(ident, "else") {
            TokenType::Else
        } else if str_eq(ident, "while") {
            TokenType::While
        } else if str_eq(ident, "true") {
            TokenType::True
        } else if str_eq(ident, "false") {
            TokenType::False
        } else if str_eq(ident, "func") {
            TokenType::Func
        } else {
            TokenType::Ident
        }
    }
}

} // verus!
