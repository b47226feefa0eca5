//! Statement syntax trees.

use vstd::prelude::*;
use crate::ast::DefVarNode;
use crate::ast_expr::ExprNode;

verus! {

/// A statement.
#[derive(Debug, PartialEq)]
pub enum StmtNode {
    Block(BlockNode),
    If(IfStmtNode),
    Expr(ExprStmtNode),
    While(WhileStmtNode),
    DoWhile(DoWhileStmtNode),
    For(ForStmtNode),
    Return(ReturnStmtNode),
    Break(BreakStmtNode),
    Continue(ContinueStmtNode),
}

/// `{ defvar* stmt* }` — local definitions and statements; opens a scope.
#[derive(Debug, PartialEq)]
pub struct BlockNode {
    pub defvars: Vec<DefVarNode>,
    pub stmts: Vec<StmtNode>,
}

/// `if (cond) stmt [else stmt]`
#[derive(Debug, PartialEq)]
pub struct IfStmtNode {
    pub condition: ExprNode,
    pub if_stmt: Box<StmtNode>,
    pub else_stmt: Option<Box<StmtNode>>,
}

/// `expr ;`
#[derive(Debug, PartialEq)]
pub struct ExprStmtNode {
    pub expr: ExprNode,
}

/// `while (cond) stmt`
#[derive(Debug, PartialEq)]
pub struct WhileStmtNode {
    pub condition: ExprNode,
    pub stmts: Box<StmtNode>,
}

/// `do block while (cond)`
#[derive(Debug, PartialEq)]
pub struct DoWhileStmtNode {
    pub condition: ExprNode,
    pub stmts: Box<StmtNode>,
}

/// `for (init; cond; step) stmt`
#[derive(Debug, PartialEq)]
pub struct ForStmtNode {
    pub initial_expr: ExprNode,
    pub condition: ExprNode,
    pub end_expr: ExprNode,
    pub stmts: Box<StmtNode>,
}

/// `return expr ;`
#[derive(Debug, PartialEq)]
pub struct ReturnStmtNode {
    pub value: ExprNode,
}

/// `break ;`
#[derive(Debug, PartialEq)]
pub struct BreakStmtNode {}

/// `continue ;`
#[derive(Debug, PartialEq)]
pub struct ContinueStmtNode {}

} // verus!
