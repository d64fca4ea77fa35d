//! Syntax tree for the expression language: a program is a sequence of
//! statements, each either an expression statement (whose result is stored
//! into the one global memory cell) or a print statement.

use vstd::prelude::*;

verus! {

pub struct TransUnit {
    pub block: Block,
}

pub struct Block {
    pub stmts: Vec<Stmt>,
}

pub enum Stmt {
    ExprStmt(Expr),
    PrintStmt(Expr),
}

pub enum Expr {
    Primary(Box<PrimaryExpr>),
    Prefix(Box<PrefixExpr>),
    Infix(Box<InfixExpr>),
}

pub struct PrefixExpr {
    pub op: PrefixOp,
    pub expr: Box<Expr>,
}

pub struct InfixExpr {
    pub lhs: Box<Expr>,
    pub op: InfixOp,
    pub rhs: Box<Expr>,
}

pub enum PrefixOp {
    Plus,
    Minus,
}

pub enum InfixOp {
    Plus,
    Minus,
    Multiply,
    Divide,
}

pub enum PrimaryExpr {
    Mem,
    Int(i64),
    Expr(Box<Expr>),
}

} // verus!
