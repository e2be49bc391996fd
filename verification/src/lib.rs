//! The front end of a minimal scripting language: a scanner that turns source
//! text into classified tokens, a two-statement recursive-descent parser, and
//! a tree-walking evaluator over a name-to-value environment. The whole
//! pipeline is total: every source text yields an output text.

use vstd::prelude::*;

pub mod ast;
pub mod eval;
pub mod lexer;
pub mod parser;
pub mod text;
pub mod token;

use crate::eval::{env_after, eval, join_lines, lines_after, Environment};
use crate::lexer::Lexer;
use crate::parser::{parse_stmts, Parser};

verus! {

/// The output text of a source text: the statements parsed from it are run
/// against an empty environment and the printed lines are joined with single
/// newlines, with no trailing newline.
pub open spec fn run_spec(input: Seq<char>) -> Seq<char> {
    join_lines(lines_after(parse_stmts(input, 0), Map::empty()))
}

/// The environment a source text's statements leave behind, starting empty.
pub open spec fn run_env_spec(input: Seq<char>) -> Map<Seq<char>, Seq<char>> {
    env_after(parse_stmts(input, 0), Map::empty())
}

/// Runs the whole pipeline on a source text: lexes it, parses the two
/// statement forms, evaluates the program against a fresh empty environment,
/// and returns the accumulated output text. Total: every source text yields
/// an output, with no failure path.
pub fn run(code: &str) -> (output: String)
    ensures
        output@ == run_spec(code@),
{
    let lexer = Lexer::new(code.to_owned());
    let mut parser = Parser::new(lexer);
    let program = parser.parse_program();
    let mut env = Environment::new();
    eval(&program, &mut env)
}

} // verus!
