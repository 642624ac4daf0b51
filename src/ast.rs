use vstd::prelude::*;

verus! {

/// An identifier as it stood in the source.
pub struct Name {
    pub lexeme: String,
    pub line: usize,
}

#[derive(Clone, Copy, Debug, PartialEq, Eq, Structural)]
pub enum BinaryOp {
    BangEqual,
    EqualEqual,
    Greater,
    GreaterEqual,
    Less,
    LessEqual,
    Plus,
    Minus,
    Star,
    Slash,
}

#[derive(Clone, Copy, Debug, PartialEq, Eq, Structural)]
pub enum LogicalOp {
    And,
    Or,
}

#[derive(Clone, Copy, Debug, PartialEq, Eq, Structural)]
pub enum UnaryOp {
    Bang,
    Minus,
}

/// An expression node; the `usize` fields are source lines. A number literal
/// holds the bits of its IEEE-754 double.
pub enum Expr {
    Assign(Name, Box<Expr>),
    Binary(Box<Expr>, BinaryOp, usize, Box<Expr>),
    Logical(Box<Expr>, LogicalOp, usize, Box<Expr>),
    Unary(UnaryOp, usize, Box<Expr>),
    Grouping(Box<Expr>),
    Var(Name),
    String(usize, String),
    Number(usize, u64),
    Boolean(usize, bool),
    Nil(usize),
}

/// A statement node.
pub enum Stmt {
    Block(Vec<Stmt>),
    Expression(Expr),
    If(Expr, Box<Stmt>, Option<Box<Stmt>>),
    Print(Expr),
    Var(Name, Option<Expr>),
    While(Expr, Box<Stmt>),
}

} // verus!
