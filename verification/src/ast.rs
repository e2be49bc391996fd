//! The syntax tree: programs, the two statement forms, and the two expression
//! forms, each with a mathematical view over sequences of characters.

use vstd::prelude::*;

verus! {

/// The mathematical image of an expression.
pub enum ExprView {
    Ident(Seq<char>),
    StrLit(Seq<char>),
}

/// The mathematical image of a statement.
pub enum StmtView {
    Let { name: Seq<char>, value: ExprView },
    Print { value: ExprView },
}

/// A variable reference, resolved against the environment at evaluation time.
#[derive(Debug, Clone)]
pub struct Identifier {
    pub value: String,
}

/// A literal text value.
#[derive(Debug, Clone)]
pub struct StringLiteral {
    pub value: String,
}

/// An expression: a variable reference or a literal.
#[derive(Debug, Clone)]
pub enum Expression {
    Identifier(Identifier),
    StringLiteral(StringLiteral),
}

impl View for Expression {
    type V = ExprView;

    open spec fn view(&self) -> ExprView {
        match self {
            Expression::Identifier(i) => ExprView::Ident(i.value@),
            Expression::StringLiteral(s) => ExprView::StrLit(s.value@),
        }
    }
}

/// A variable binding: stores the value of the expression under the name.
#[derive(Debug, Clone)]
pub struct LetStatement {
    pub name: Identifier,
    pub value: Expression,
}

/// An output statement: emits the value of the expression.
#[derive(Debug, Clone)]
pub struct PrintStatement {
    pub value: Expression,
}

/// A statement: a binding or an output.
#[derive(Debug, Clone)]
pub enum Statement {
    Let(LetStatement),
    Print(PrintStatement),
}

impl View for Statement {
    type V = StmtView;

    open spec fn view(&self) -> StmtView {
        match self {
            Statement::Let(l) => StmtView::Let { name: l.name.value@, value: l.value@ },
            Statement::Print(p) => StmtView::Print { value: p.value@ },
        }
    }
}

/// An ordered sequence of statements; insertion order is evaluation order.
#[derive(Debug, Clone)]
pub struct Program {
    pub statements: Vec<Statement>,
}

impl View for Program {
    type V = Seq<StmtView>;

    open spec fn view(&self) -> Seq<StmtView> {
        self.statements@.map_values(|s: Statement| s@)
    }
}

impl Program {
    pub fn new() -> (p: Program)
        ensures
            p@ == Seq::<StmtView>::empty(),
    {
        let p = Program { statements: Vec::new() };
        proof {
            assert(p@ =~= Seq::<StmtView>::empty());
        }
        p
    }
}

} // verus!
