//! The parser: a two-token-lookahead recursive-descent consumer of the lexer.
//! The grammar recognized is exactly `let <name> = <value>;` and
//! `print <name>;`; any token that opens neither form is skipped as a no-op,
//! never a syntax error, and no structural check is made on the tokens that
//! occupy the name, `=` and value positions. The spec model `parse_stmts`
//! gives the statements as a pure function of the source text.

use vstd::prelude::*;

use crate::ast::{Expression, ExprView, Identifier, LetStatement, PrintStatement, Program,
    Statement, StmtView, StringLiteral};
use crate::lexer::{lemma_lexer_in_bounds, lemma_next_token_bounds, next_token_spec, Lexer};
use crate::token::{Token, TokenType};

verus! {

/// The statements recognized from `pos` to the end of the input. A `let`
/// consumes four tokens (keyword, name, `=` position, value) and a `print`
/// two (keyword, value); after each attempted statement the parser advances
/// once more, so an unrecognized token is skipped silently.
pub open spec fn parse_stmts(input: Seq<char>, pos: int) -> Seq<StmtView>
    decreases input.len() - pos,
    when 0 <= pos <= input.len()
    via parse_stmts_decreases
{
    let (t1, p1) = next_token_spec(input, pos);
    if t1.ty == TokenType::Eof {
        Seq::empty()
    } else if t1.ty == TokenType::Let {
        let (t2, p2) = next_token_spec(input, p1);
        let p3 = next_token_spec(input, p2).1;
        let (t4, p4) = next_token_spec(input, p3);
        seq![StmtView::Let { name: t2.lit, value: ExprView::StrLit(t4.lit) }] + parse_stmts(
            input,
            p4,
        )
    } else if t1.ty == TokenType::Print {
        let (t2, p2) = next_token_spec(input, p1);
        seq![StmtView::Print { value: ExprView::Ident(t2.lit) }] + parse_stmts(input, p2)
    } else {
        parse_stmts(input, p1)
    }
}

#[via_fn]
proof fn parse_stmts_decreases(input: Seq<char>, pos: int) {
    lemma_next_token_bounds(input, pos);
    let p1 = next_token_spec(input, pos).1;
    lemma_next_token_bounds(input, p1);
    let p2 = next_token_spec(input, p1).1;
    lemma_next_token_bounds(input, p2);
    let p3 = next_token_spec(input, p2).1;
    lemma_next_token_bounds(input, p3);
}

/// Whether the token at `pos` opens one of the two statement forms.
pub open spec fn stmt_starts_here(input: Seq<char>, pos: int) -> bool {
    let t1 = next_token_spec(input, pos).0;
    t1.ty == TokenType::Let || t1.ty == TokenType::Print
}

/// The statement recognized at `pos`, assuming one starts there.
pub open spec fn stmt_parsed(input: Seq<char>, pos: int) -> StmtView {
    let (t1, p1) = next_token_spec(input, pos);
    if t1.ty == TokenType::Let {
        let (t2, p2) = next_token_spec(input, p1);
        let p3 = next_token_spec(input, p2).1;
        let t4 = next_token_spec(input, p3).0;
        StmtView::Let { name: t2.lit, value: ExprView::StrLit(t4.lit) }
    } else {
        let t2 = next_token_spec(input, p1).0;
        StmtView::Print { value: ExprView::Ident(t2.lit) }
    }
}

/// The parser's position after attempting one statement at `pos`, before the
/// unconditional advance that follows every attempt.
pub open spec fn stmt_end(input: Seq<char>, pos: int) -> int {
    let (t1, p1) = next_token_spec(input, pos);
    if t1.ty == TokenType::Let {
        let p2 = next_token_spec(input, p1).1;
        let p3 = next_token_spec(input, p2).1;
        p3
    } else if t1.ty == TokenType::Print {
        p1
    } else {
        pos
    }
}

/// A recursive-descent parser holding the lexer, the current token, and one
/// token of lookahead.
pub struct Parser {
    lexer: Lexer,
    cur_token: Token,
    peek_token: Token,
    base: Ghost<int>,
}

impl Parser {
    /// The source text being parsed.
    pub closed spec fn chars(&self) -> Seq<char> {
        self.lexer.chars()
    }

    /// The source position from which the current token was scanned.
    pub closed spec fn base(&self) -> int {
        self.base@
    }

    /// The parser's internal consistency: the current token is the one
    /// scanned at `base`, the lookahead token is the one after it, and the
    /// lexer's cursor stands just past the lookahead token.
    pub closed spec fn wf(&self) -> bool {
        &&& self.lexer.wf()
        &&& 0 <= self.base@ <= self.lexer.chars().len()
        &&& self.cur_token@ == next_token_spec(self.lexer.chars(), self.base@).0
        &&& {
            let p1 = next_token_spec(self.lexer.chars(), self.base@).1;
            &&& self.peek_token@ == next_token_spec(self.lexer.chars(), p1).0
            &&& self.lexer.cursor() == next_token_spec(self.lexer.chars(), p1).1
        }
    }

    /// Primes the current and lookahead tokens with two initial advances.
    pub fn new(lexer: Lexer) -> (p: Parser)
        requires
            lexer.wf(),
        ensures
            p.wf(),
            p.chars() == lexer.chars(),
            p.base() == lexer.cursor(),
    {
        let ghost b0 = lexer.cursor();
        let mut lexer = lexer;
        proof {
            lemma_lexer_in_bounds(&lexer);
            lemma_next_token_bounds(lexer.chars(), b0);
            lemma_next_token_bounds(lexer.chars(), next_token_spec(lexer.chars(), b0).1);
        }
        let cur = lexer.next_token();
        let peek = lexer.next_token();
        Parser { lexer, cur_token: cur, peek_token: peek, base: Ghost(b0) }
    }

    /// Shifts the lookahead token into the current position and pulls a new
    /// lookahead token from the lexer.
    fn next_token(&mut self)
        requires
            old(self).wf(),
        ensures
            final(self).wf(),
            final(self).chars() == old(self).chars(),
            final(self).base() == next_token_spec(old(self).chars(), old(self).base()).1,
    {
        proof {
            lemma_next_token_bounds(self.lexer.chars(), self.base@);
            lemma_next_token_bounds(
                self.lexer.chars(),
                next_token_spec(self.lexer.chars(), self.base@).1,
            );
        }
        self.base = Ghost(next_token_spec(self.lexer.chars(), self.base@).1);
        let mut shifted = self.lexer.next_token();
        core::mem::swap(&mut self.peek_token, &mut shifted);
        self.cur_token = shifted;
    }

    /// Builds the program: dispatches on the current token until the
    /// end-marker, appending each recognized statement and advancing once
    /// after every attempt, so unrecognized tokens are skipped as no-ops.
    pub fn parse_program(&mut self) -> (prog: Program)
        requires
            old(self).wf(),
        ensures
            final(self).wf(),
            final(self).chars() == old(self).chars(),
            prog@ == parse_stmts(old(self).chars(), old(self).base()),
    {
        let ghost cs = self.chars();
        let ghost b0 = self.base();
        let mut program = Program::new();
        while !matches!(self.cur_token.token_type, TokenType::Eof)
            invariant
                self.wf(),
                self.chars() == cs,
                parse_stmts(cs, b0) == program@ + parse_stmts(cs, self.base()),
            decreases cs.len() - self.base(),
        {
            let ghost b = self.base();
            let ghost prefix = program@;
            proof {
                lemma_next_token_bounds(cs, b);
                let p1 = next_token_spec(cs, b).1;
                lemma_next_token_bounds(cs, p1);
                let p2 = next_token_spec(cs, p1).1;
                lemma_next_token_bounds(cs, p2);
                let p3 = next_token_spec(cs, p2).1;
                lemma_next_token_bounds(cs, p3);
            }
            let stmt_opt = self.parse_statement();
            if let Some(stmt) = stmt_opt {
                let ghost sv = stmt@;
                program.statements.push(stmt);
                proof {
                    assert(program@ =~= prefix.push(sv));
                }
                self.next_token();
                proof {
                    assert(prefix + (seq![sv] + parse_stmts(cs, self.base())) =~= prefix.push(sv)
                        + parse_stmts(cs, self.base()));
                }
            } else {
                self.next_token();
            }
        }
        proof {
            assert(program@ + Seq::<StmtView>::empty() =~= program@);
        }
        program
    }

    /// Recognizes a statement if the current token opens one; otherwise
    /// leaves the parser in place and recognizes nothing.
    fn parse_statement(&mut self) -> (r: Option<Statement>)
        requires
            old(self).wf(),
        ensures
            final(self).wf(),
            final(self).chars() == old(self).chars(),
            ({
                let cs = old(self).chars();
                let b = old(self).base();
                match r {
                    Some(s) => stmt_starts_here(cs, b) && s@ == stmt_parsed(cs, b)
                        && final(self).base() == stmt_end(cs, b),
                    None => !stmt_starts_here(cs, b) && final(self).base() == b,
                }
            }),
    {
        match self.cur_token.token_type {
            TokenType::Let => self.parse_let_statement(),
            TokenType::Print => self.parse_print_statement(),
            _ => None,
        }
    }

    /// Consumes the `let` keyword, takes the next token's literal as the
    /// binding name verbatim, skips the `=` position without checking it, and
    /// wraps the value position's literal as a string literal, whatever its
    /// category.
    fn parse_let_statement(&mut self) -> (r: Option<Statement>)
        requires
            old(self).wf(),
            next_token_spec(old(self).chars(), old(self).base()).0.ty == TokenType::Let,
        ensures
            final(self).wf(),
            final(self).chars() == old(self).chars(),
            final(self).base() == stmt_end(old(self).chars(), old(self).base()),
            match r {
                Some(s) => s@ == stmt_parsed(old(self).chars(), old(self).base()),
                None => false,
            },
    {
        self.next_token();
        let name = Identifier { value: self.cur_token.literal.clone() };
        self.next_token();
        self.next_token();
        let value = Expression::StringLiteral(
            StringLiteral { value: self.cur_token.literal.clone() },
        );
        Some(Statement::Let(LetStatement { name, value }))
    }

    /// Consumes the `print` keyword and wraps the next token's literal as a
    /// variable reference, so `print` only ever resolves a name.
    fn parse_print_statement(&mut self) -> (r: Option<Statement>)
        requires
            old(self).wf(),
            next_token_spec(old(self).chars(), old(self).base()).0.ty == TokenType::Print,
        ensures
            final(self).wf(),
            final(self).chars() == old(self).chars(),
            final(self).base() == stmt_end(old(self).chars(), old(self).base()),
            match r {
                Some(s) => s@ == stmt_parsed(old(self).chars(), old(self).base()),
                None => false,
            },
    {
        self.next_token();
        let value = Expression::Identifier(Identifier { value: self.cur_token.literal.clone() });
        Some(Statement::Print(PrintStatement { value }))
    }
}

} // verus!
