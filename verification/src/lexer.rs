//! The lexer: a single-pass scanner over a character buffer that produces one
//! classified token per call. The spec model is a pure function from the
//! input text and a cursor to the next token and the cursor after it;
//! `next_token` is proved to compute exactly that function, so lexing is a
//! deterministic function of the source text alone.

use vstd::prelude::*;

use crate::text::{is_digit, is_digit_sp, is_letter, is_letter_sp, is_space, is_space_sp,
    string_of_char, string_of_range};
use crate::token::{lookup_spec, TokenView, Token, TokenType};

verus! {

/// The cursor after skipping every whitespace character from `pos` on.
pub open spec fn skip_ws_sp(input: Seq<char>, pos: int) -> int
    decreases input.len() - pos,
{
    if 0 <= pos < input.len() && is_space_sp(input[pos]) {
        skip_ws_sp(input, pos + 1)
    } else {
        pos
    }
}

/// The end of an identifier lexeme that continues at `pos`: the first index
/// at or after `pos` whose character is neither a letter nor a digit.
pub open spec fn scan_ident_end(input: Seq<char>, pos: int) -> int
    decreases input.len() - pos,
{
    if 0 <= pos < input.len() && (is_letter_sp(input[pos]) || is_digit_sp(input[pos])) {
        scan_ident_end(input, pos + 1)
    } else {
        pos
    }
}

/// The end of a numeric lexeme that continues at `pos`: digits are consumed,
/// and at most one decimal point; a second decimal point ends the lexeme.
pub open spec fn scan_number_end(input: Seq<char>, pos: int, seen_dot: bool) -> int
    decreases input.len() - pos,
{
    if 0 <= pos < input.len() {
        let c = input[pos];
        if c == '.' {
            if seen_dot {
                pos
            } else {
                scan_number_end(input, pos + 1, true)
            }
        } else if is_digit_sp(c) {
            scan_number_end(input, pos + 1, seen_dot)
        } else {
            pos
        }
    } else {
        pos
    }
}

/// Whether the numeric lexeme that continues at `pos` consumes a decimal
/// point (and is therefore classified as a float).
pub open spec fn scan_number_float(input: Seq<char>, pos: int, seen_dot: bool) -> bool
    decreases input.len() - pos,
{
    if 0 <= pos < input.len() {
        let c = input[pos];
        if c == '.' {
            if seen_dot {
                seen_dot
            } else {
                scan_number_float(input, pos + 1, true)
            }
        } else if is_digit_sp(c) {
            scan_number_float(input, pos + 1, seen_dot)
        } else {
            seen_dot
        }
    } else {
        seen_dot
    }
}

/// The end of a string literal's body that starts at `pos` (just past the
/// opening quote): the index of the closing quote, or the end of the input if
/// no closing quote follows.
pub open spec fn scan_string_end(input: Seq<char>, pos: int) -> int
    decreases input.len() - pos,
{
    if 0 <= pos < input.len() && input[pos] != '"' {
        scan_string_end(input, pos + 1)
    } else {
        pos
    }
}

/// The token whose lexeme starts exactly at `p` (no leading whitespace), and
/// the cursor after it. At or past the end of the input this is the
/// end-marker, which leaves the cursor in place, so calls past end-of-input
/// keep yielding the end-marker.
pub open spec fn classify_at(input: Seq<char>, p: int) -> (TokenView, int) {
    if !(0 <= p < input.len()) {
        (TokenView { ty: TokenType::Eof, lit: ""@ }, p)
    } else {
        let c = input[p];
        if c == '=' {
            if p + 1 < input.len() && input[p + 1] == '=' {
                (TokenView { ty: TokenType::Eq, lit: "=="@ }, p + 2)
            } else {
                (TokenView { ty: TokenType::Assign, lit: "="@ }, p + 1)
            }
        } else if c == '+' {
            (TokenView { ty: TokenType::Plus, lit: "+"@ }, p + 1)
        } else if c == '-' {
            (TokenView { ty: TokenType::Minus, lit: "-"@ }, p + 1)
        } else if c == '*' {
            (TokenView { ty: TokenType::Asterisk, lit: "*"@ }, p + 1)
        } else if c == '/' {
            (TokenView { ty: TokenType::Slash, lit: "/"@ }, p + 1)
        } else if c == '<' {
            if p + 1 < input.len() && input[p + 1] == '=' {
                (TokenView { ty: TokenType::Lte, lit: "<="@ }, p + 2)
            } else {
                (TokenView { ty: TokenType::Lt, lit: "<"@ }, p + 1)
            }
        } else if c == '>' {
            if p + 1 < input.len() && input[p + 1] == '=' {
                (TokenView { ty: TokenType::Gte, lit: ">="@ }, p + 2)
            } else {
                (TokenView { ty: TokenType::Gt, lit: ">"@ }, p + 1)
            }
        } else if c == '!' {
            if p + 1 < input.len() && input[p + 1] == '=' {
                (TokenView { ty: TokenType::NotEq, lit: "!="@ }, p + 2)
            } else {
                (TokenView { ty: TokenType::Illegal, lit: "!"@ }, p + 1)
            }
        } else if c == ',' {
            (TokenView { ty: TokenType::Comma, lit: ","@ }, p + 1)
        } else if c == ';' {
            (TokenView { ty: TokenType::Semicolon, lit: ";"@ }, p + 1)
        } else if c == '(' {
            (TokenView { ty: TokenType::LParen, lit: "("@ }, p + 1)
        } else if c == ')' {
            (TokenView { ty: TokenType::RParen, lit: ")"@ }, p + 1)
        } else if c == '{' {
            (TokenView { ty: TokenType::LBrace, lit: "{"@ }, p + 1)
        } else if c == '}' {
            (TokenView { ty: TokenType::RBrace, lit: "}"@ }, p + 1)
        } else if c == '"' {
            let e = scan_string_end(input, p + 1);
            (
                TokenView { ty: TokenType::String, lit: input.subrange(p + 1, e) },
                if e < input.len() {
                    e + 1
                } else {
                    e
                },
            )
        } else if is_letter_sp(c) {
            let e = scan_ident_end(input, p);
            let lit = input.subrange(p, e);
            (TokenView { ty: lookup_spec(lit), lit }, e)
        } else if is_digit_sp(c) {
            let e = scan_number_end(input, p, false);
            let f = scan_number_float(input, p, false);
            (
                TokenView {
                    ty: if f {
                        TokenType::Float
                    } else {
                        TokenType::Int
                    },
                    lit: input.subrange(p, e),
                },
                e,
            )
        } else {
            (TokenView { ty: TokenType::Illegal, lit: seq![c] }, p + 1)
        }
    }
}

/// The next token scanned from `pos`: leading whitespace is skipped, then the
/// lexeme at the cursor is classified. Returns the token and the cursor after
/// the consumed lexeme.
pub open spec fn next_token_spec(input: Seq<char>, pos: int) -> (TokenView, int) {
    classify_at(input, skip_ws_sp(input, pos))
}

pub proof fn lemma_skip_ws_bounds(input: Seq<char>, pos: int)
    requires
        0 <= pos <= input.len(),
    ensures
        pos <= skip_ws_sp(input, pos) <= input.len(),
    decreases input.len() - pos,
{
    if pos < input.len() && is_space_sp(input[pos]) {
        lemma_skip_ws_bounds(input, pos + 1);
    }
}

pub proof fn lemma_scan_ident_bounds(input: Seq<char>, pos: int)
    requires
        0 <= pos <= input.len(),
    ensures
        pos <= scan_ident_end(input, pos) <= input.len(),
    decreases input.len() - pos,
{
    if pos < input.len() && (is_letter_sp(input[pos]) || is_digit_sp(input[pos])) {
        lemma_scan_ident_bounds(input, pos + 1);
    }
}

pub proof fn lemma_scan_number_bounds(input: Seq<char>, pos: int, seen_dot: bool)
    requires
        0 <= pos <= input.len(),
    ensures
        pos <= scan_number_end(input, pos, seen_dot) <= input.len(),
    decreases input.len() - pos,
{
    if pos < input.len() {
        let c = input[pos];
        if c == '.' && !seen_dot {
            lemma_scan_number_bounds(input, pos + 1, true);
        } else if c != '.' && is_digit_sp(c) {
            lemma_scan_number_bounds(input, pos + 1, seen_dot);
        }
    }
}

pub proof fn lemma_scan_string_bounds(input: Seq<char>, pos: int)
    requires
        0 <= pos <= input.len(),
    ensures
        pos <= scan_string_end(input, pos) <= input.len(),
    decreases input.len() - pos,
{
    if pos < input.len() && input[pos] != '"' {
        lemma_scan_string_bounds(input, pos + 1);
    }
}

/// Scanning a token never moves the cursor backwards or past the end of the
/// input, and moves it strictly forward unless the end-marker came out.
pub proof fn lemma_next_token_bounds(input: Seq<char>, pos: int)
    requires
        0 <= pos <= input.len(),
    ensures
        pos <= next_token_spec(input, pos).1 <= input.len(),
        next_token_spec(input, pos).0.ty != TokenType::Eof ==> next_token_spec(input, pos).1 > pos,
{
    lemma_skip_ws_bounds(input, pos);
    let p = skip_ws_sp(input, pos);
    if p < input.len() {
        let c = input[p];
        if c == '"' {
            lemma_scan_string_bounds(input, p + 1);
        } else if is_letter_sp(c) {
            lemma_scan_ident_bounds(input, p + 1);
        } else if is_digit_sp(c) {
            lemma_scan_number_bounds(input, p + 1, input[p] == '.');
            lemma_scan_number_bounds(input, p + 1, false);
            lemma_scan_number_bounds(input, p + 1, true);
        }
    }
}

/// The whole token stream of a text from `pos` on, ending before (and not
/// including) the end-marker.
pub open spec fn token_seq(input: Seq<char>, pos: int) -> Seq<TokenView>
    decreases input.len() - pos,
    when 0 <= pos <= input.len()
    via token_seq_decreases
{
    let (t, np) = next_token_spec(input, pos);
    if t.ty == TokenType::Eof {
        Seq::empty()
    } else {
        seq![t] + token_seq(input, np)
    }
}

#[via_fn]
proof fn token_seq_decreases(input: Seq<char>, pos: int) {
    lemma_next_token_bounds(input, pos);
}

/// The token stream of a whole text.
pub open spec fn tokens_of(input: Seq<char>) -> Seq<TokenView> {
    token_seq(input, 0)
}

/// A single-pass character scanner: the full input as an indexable sequence
/// of characters, a cursor, a one-position lookahead index, and the character
/// under the cursor.
pub struct Lexer {
    input: Vec<char>,
    position: usize,
    read_position: usize,
    ch: Option<char>,
}

impl Lexer {
    /// The input text being scanned.
    pub closed spec fn chars(&self) -> Seq<char> {
        self.input@
    }

    /// The cursor: the index of the next character to classify.
    pub closed spec fn cursor(&self) -> int {
        self.position as int
    }

    /// The scanner's internal consistency: the cursor stays within the input,
    /// the lookahead index is one past the cursor (saturating at the end),
    /// and the cached character is the one under the cursor.
    pub closed spec fn wf(&self) -> bool {
        &&& self.position <= self.input@.len()
        &&& self.read_position as int == if (self.position as int) + 1 <= self.input@.len() {
            self.position as int + 1
        } else {
            self.input@.len() as int
        }
        &&& self.ch == if (self.position as int) < self.input@.len() {
            Some(self.input@[self.position as int])
        } else {
            None::<char>
        }
    }

    pub fn new(input: String) -> (l: Lexer)
        ensures
            l.wf(),
            l.chars() == input@,
            l.cursor() == 0,
    {
        let n: usize = input.as_str().unicode_len();
        let mut buf: Vec<char> = Vec::new();
        let mut i: usize = 0;
        while i < n
            invariant
                n == input@.len(),
                i <= n,
                buf@ =~= input@.subrange(0, i as int),
            decreases n - i,
        {
            let c = input.as_str().get_char(i);
            buf.push(c);
            i = i + 1;
        }
        proof {
            assert(buf@ =~= input@);
        }
        let mut l = Lexer { input: buf, position: 0, read_position: 0, ch: None };
        l.read_char();
        l
    }

    /// Advances the cursor by one position, saturating at the end of the
    /// input, and refreshes the cached character.
    fn read_char(&mut self)
        requires
            old(self).read_position <= old(self).input@.len(),
        ensures
            final(self).input == old(self).input,
            final(self).position == old(self).read_position,
            final(self).read_position as int == if (final(self).position as int) + 1 <= final(self).input@.len() {
                final(self).position as int + 1
            } else {
                final(self).input@.len() as int
            },
            final(self).ch == if (final(self).position as int) < final(self).input@.len() {
                Some(final(self).input@[final(self).position as int])
            } else {
                None::<char>
            },
    {
        self.position = self.read_position;
        if self.read_position < self.input.len() {
            self.read_position = self.read_position + 1;
        }
        self.ch = if self.position < self.input.len() {
            Some(self.input[self.position])
        } else {
            None
        };
    }

    /// The character one position past the cursor, if any.
    fn peek_char(&self) -> (r: Option<char>)
        requires
            self.wf(),
        ensures
            r == if self.cursor() + 1 < self.chars().len() {
                Some(self.chars()[self.cursor() + 1])
            } else {
                None::<char>
            },
    {
        if self.read_position < self.input.len() {
            Some(self.input[self.read_position])
        } else {
            None
        }
    }

    fn skip_whitespace(&mut self)
        requires
            old(self).wf(),
        ensures
            final(self).wf(),
            final(self).chars() == old(self).chars(),
            final(self).cursor() == skip_ws_sp(old(self).chars(), old(self).cursor()),
    {
        let ghost cs = self.chars();
        let ghost pos0 = self.cursor();
        let mut walking = true;
        while walking
            invariant
                self.wf(),
                self.chars() == cs,
                walking ==> skip_ws_sp(cs, pos0) == skip_ws_sp(cs, self.cursor()),
                !walking ==> skip_ws_sp(cs, pos0) == self.cursor(),
            decreases cs.len() - self.cursor() + if walking {
                1int
            } else {
                0int
            },
        {
            match self.ch {
                Some(c) => {
                    if is_space(c) {
                        self.read_char();
                    } else {
                        walking = false;
                    }
                },
                None => {
                    walking = false;
                },
            }
        }
    }

    /// Consumes an identifier lexeme: letters, underscores and digits, from
    /// the cursor to the first character outside that class.
    fn read_identifier(&mut self) -> (s: String)
        requires
            old(self).wf(),
        ensures
            final(self).wf(),
            final(self).chars() == old(self).chars(),
            final(self).cursor() == scan_ident_end(old(self).chars(), old(self).cursor()),
            s@ == old(self).chars().subrange(old(self).cursor(), final(self).cursor()),
    {
        let ghost cs = self.chars();
        let start: usize = self.position;
        let mut walking = true;
        while walking
            invariant
                self.wf(),
                self.chars() == cs,
                start <= self.cursor(),
                walking ==> scan_ident_end(cs, start as int) == scan_ident_end(cs, self.cursor()),
                !walking ==> scan_ident_end(cs, start as int) == self.cursor(),
            decreases cs.len() - self.cursor() + if walking {
                1int
            } else {
                0int
            },
        {
            match self.ch {
                Some(c) => {
                    if is_letter(c) || is_digit(c) {
                        self.read_char();
                    } else {
                        walking = false;
                    }
                },
                None => {
                    walking = false;
                },
            }
        }
        string_of_range(&self.input, start, self.position)
    }

    /// Consumes a numeric lexeme: digits with at most one decimal point; a
    /// second decimal point ends the lexeme. Also reports whether a decimal
    /// point was consumed.
    fn read_number(&mut self) -> (r: (String, bool))
        requires
            old(self).wf(),
        ensures
            final(self).wf(),
            final(self).chars() == old(self).chars(),
            final(self).cursor() == scan_number_end(old(self).chars(), old(self).cursor(), false),
            r.0@ == old(self).chars().subrange(old(self).cursor(), final(self).cursor()),
            r.1 == scan_number_float(old(self).chars(), old(self).cursor(), false),
    {
        let ghost cs = self.chars();
        let start: usize = self.position;
        let mut is_float = false;
        let mut walking = true;
        while walking
            invariant
                self.wf(),
                self.chars() == cs,
                start <= self.cursor(),
                walking ==> scan_number_end(cs, start as int, false) == scan_number_end(
                    cs,
                    self.cursor(),
                    is_float,
                ),
                walking ==> scan_number_float(cs, start as int, false) == scan_number_float(
                    cs,
                    self.cursor(),
                    is_float,
                ),
                !walking ==> scan_number_end(cs, start as int, false) == self.cursor(),
                !walking ==> scan_number_float(cs, start as int, false) == is_float,
            decreases cs.len() - self.cursor() + if walking {
                1int
            } else {
                0int
            },
        {
            match self.ch {
                Some(c) => {
                    if c == '.' {
                        if is_float {
                            walking = false;
                        } else {
                            is_float = true;
                            self.read_char();
                        }
                    } else if is_digit(c) {
                        self.read_char();
                    } else {
                        walking = false;
                    }
                },
                None => {
                    walking = false;
                },
            }
        }
        let s = string_of_range(&self.input, start, self.position);
        (s, is_float)
    }

    /// Consumes a string literal: the opening quote, the body up to (not
    /// including) the next quote or the end of the input, and the closing
    /// quote if one is present. Returns the body, without the quotes.
    fn read_string(&mut self) -> (s: String)
        requires
            old(self).wf(),
            old(self).cursor() < old(self).chars().len(),
        ensures
            final(self).wf(),
            final(self).chars() == old(self).chars(),
            s@ == old(self).chars().subrange(
                old(self).cursor() + 1,
                scan_string_end(old(self).chars(), old(self).cursor() + 1),
            ),
            final(self).cursor() == ({
                let e = scan_string_end(old(self).chars(), old(self).cursor() + 1);
                if e < old(self).chars().len() {
                    e + 1
                } else {
                    e
                }
            }),
    {
        let ghost cs = self.chars();
        self.read_char();
        let start: usize = self.position;
        let mut walking = true;
        while walking
            invariant
                self.wf(),
                self.chars() == cs,
                start <= self.cursor(),
                walking ==> scan_string_end(cs, start as int) == scan_string_end(
                    cs,
                    self.cursor(),
                ),
                !walking ==> scan_string_end(cs, start as int) == self.cursor(),
            decreases cs.len() - self.cursor() + if walking {
                1int
            } else {
                0int
            },
        {
            match self.ch {
                Some(c) => {
                    if c != '"' {
                        self.read_char();
                    } else {
                        walking = false;
                    }
                },
                None => {
                    walking = false;
                },
            }
        }
        let s = string_of_range(&self.input, start, self.position);
        self.read_char();
        s
    }

    /// Scans and returns the next token, advancing the cursor past the
    /// consumed lexeme: exactly the token and cursor that `next_token_spec`
    /// gives for the current state.
    pub fn next_token(&mut self) -> (tok: Token)
        requires
            old(self).wf(),
        ensures
            final(self).wf(),
            final(self).chars() == old(self).chars(),
            tok@ == next_token_spec(old(self).chars(), old(self).cursor()).0,
            final(self).cursor() == next_token_spec(old(self).chars(), old(self).cursor()).1,
    {
        self.skip_whitespace();
        let tok: Token;
        match self.ch {
            None => {
                return Token::new(TokenType::Eof, "");
            },
            Some(c) => {
                if c == '=' {
                    if self.peek_is_eq_sign() {
                        self.read_char();
                        tok = Token::new(TokenType::Eq, "==");
                    } else {
                        tok = Token::new(TokenType::Assign, "=");
                    }
                } else if c == '+' {
                    tok = Token::new(TokenType::Plus, "+");
                } else if c == '-' {
                    tok = Token::new(TokenType::Minus, "-");
                } else if c == '*' {
                    tok = Token::new(TokenType::Asterisk, "*");
                } else if c == '/' {
                    tok = Token::new(TokenType::Slash, "/");
                } else if c == '<' {
                    if self.peek_is_eq_sign() {
                        self.read_char();
                        tok = Token::new(TokenType::Lte, "<=");
                    } else {
                        tok = Token::new(TokenType::Lt, "<");
                    }
                } else if c == '>' {
                    if self.peek_is_eq_sign() {
                        self.read_char();
                        tok = Token::new(TokenType::Gte, ">=");
                    } else {
                        tok = Token::new(TokenType::Gt, ">");
                    }
                } else if c == '!' {
                    if self.peek_is_eq_sign() {
                        self.read_char();
                        tok = Token::new(TokenType::NotEq, "!=");
                    } else {
                        tok = Token::new(TokenType::Illegal, "!");
                    }
                } else if c == ',' {
                    tok = Token::new(TokenType::Comma, ",");
                } else if c == ';' {
                    tok = Token::new(TokenType::Semicolon, ";");
                } else if c == '(' {
                    tok = Token::new(TokenType::LParen, "(");
                } else if c == ')' {
                    tok = Token::new(TokenType::RParen, ")");
                } else if c == '{' {
                    tok = Token::new(TokenType::LBrace, "{");
                } else if c == '}' {
                    tok = Token::new(TokenType::RBrace, "}");
                } else if c == '"' {
                    let lit = self.read_string();
                    return Token::new(TokenType::String, lit.as_str());
                } else if is_letter(c) {
                    let lit = self.read_identifier();
                    let ty = TokenType::lookup_ident(lit.as_str());
                    return Token::new(ty, lit.as_str());
                } else if is_digit(c) {
                    let (lit, floaty) = self.read_number();
                    let ty = if floaty {
                        TokenType::Float
                    } else {
                        TokenType::Int
                    };
                    return Token::new(ty, lit.as_str());
                } else {
                    let lit = string_of_char(c);
                    tok = Token::new(TokenType::Illegal, lit.as_str());
                }
            },
        }
        self.read_char();
        tok
    }

    /// Whether the lookahead character is `=`.
    fn peek_is_eq_sign(&self) -> (r: bool)
        requires
            self.wf(),
        ensures
            r == (self.cursor() + 1 < self.chars().len() && self.chars()[self.cursor() + 1]
                == '='),
    {
        match self.peek_char() {
            Some(c) => c == '=',
            None => false,
        }
    }
}

/// A consistent lexer's cursor stands within its input.
pub proof fn lemma_lexer_in_bounds(l: &Lexer)
    requires
        l.wf(),
    ensures
        0 <= l.cursor() <= l.chars().len(),
{
}

/// Scans a whole text into its token stream, end-marker excluded.
pub fn tokenize(code: &str) -> (toks: Vec<Token>)
    ensures
        toks@.map_values(|t: Token| t@) == tokens_of(code@),
{
    let mut lexer = Lexer::new(code.to_owned());
    let mut toks: Vec<Token> = Vec::new();
    let mut scanning = true;
    while scanning
        invariant
            lexer.wf(),
            lexer.chars() == code@,
            0 <= lexer.cursor() <= code@.len(),
            scanning ==> tokens_of(code@) == toks@.map_values(|t: Token| t@) + token_seq(
                code@,
                lexer.cursor(),
            ),
            !scanning ==> tokens_of(code@) == toks@.map_values(|t: Token| t@),
        decreases code@.len() - lexer.cursor() + if scanning {
            1int
        } else {
            0int
        },
    {
        proof {
            lemma_next_token_bounds(code@, lexer.cursor());
        }
        let ghost before = lexer.cursor();
        let ghost prefix = toks@.map_values(|t: Token| t@);
        let t = lexer.next_token();
        if t.token_type == TokenType::Eof {
            scanning = false;
        } else {
            toks.push(t);
            proof {
                assert(toks@.map_values(|t: Token| t@) =~= prefix.push(t@));
                assert(token_seq(code@, before) == seq![t@] + token_seq(code@, lexer.cursor()));
                assert(prefix.push(t@) + token_seq(code@, lexer.cursor()) =~= prefix + (seq![t@]
                    + token_seq(code@, lexer.cursor())));
            }
        }
    }
    toks
}

/// Lexing is idempotent: the token stream is a function of the source text
/// alone, so two independent scans of one text yield identical token
/// sequences. Together with the contract of `tokenize` (and of
/// `Lexer::next_token`, whose result is pinned to `next_token_spec`), this
/// says that tokenizing the same source twice gives the same tokens.
pub proof fn lemma_lexing_idempotent(a: Seq<char>, b: Seq<char>)
    requires
        a == b,
    ensures
        tokens_of(a) == tokens_of(b),
{
}

} // verus!
