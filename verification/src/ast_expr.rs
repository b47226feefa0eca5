//! Expression syntax trees, as closed tagged unions per syntactic category.

use vstd::prelude::*;
use crate::ast::TypeNode;
use crate::token::Token;

verus! {

/// An expression: an assignment, a binary-operator node, or a term.
#[derive(Debug, PartialEq)]
pub enum ExprNode {
    Assign(AssginmentNode),
    Arith(ArithmeticOpNode),
    Term(TermNode),
}

/// `lhs = rhs`; assignment is right-associative.
#[derive(Debug, PartialEq)]
pub struct AssginmentNode {
    pub left_value: Box<ExprNode>,
    pub right_value: Box<ExprNode>,
}

/// A binary operator applied to two operands; built left-associatively
/// within each precedence tier.
#[derive(Debug, PartialEq)]
pub struct ArithmeticOpNode {
    pub operator: Token,
    pub left_value: Box<ExprNode>,
    pub right_value: Box<ExprNode>,
}

/// An optional parenthesized cast type followed by a unary.
#[derive(Debug, PartialEq)]
pub struct TermNode {
    pub case_type: Option<TypeNode>,
    pub unary: Box<UnaryNode>,
}

/// A unary: an optional prefix operator, a primary, and at most one postfix
/// form.
#[derive(Debug, PartialEq)]
pub enum UnaryNode {
    Single(SingeUnaryNode),
    SelfOp(SelfOpUnaryNode),
    Index(ArrayUnaryNode),
    MemberRef(RefUnaryNode),
    PointerMemberRef(PointerRefUnaryNode),
    Call(FuncCallNode),
}

/// `[prefix] primary`
#[derive(Debug, PartialEq)]
pub struct SingeUnaryNode {
    pub prefix: Option<Token>,
    pub primary: PrimaryNode,
}

/// `[prefix] primary ++` or `[prefix] primary --`
#[derive(Debug, PartialEq)]
pub struct SelfOpUnaryNode {
    pub prefix: Option<Token>,
    pub primary: PrimaryNode,
    pub postfix: Token,
}

/// `[prefix] primary [ expr ]` — a single index, with no chaining.
#[derive(Debug, PartialEq)]
pub struct ArrayUnaryNode {
    pub prefix: Option<Token>,
    pub primary: PrimaryNode,
    pub postfix: Box<ExprNode>,
}

/// `[prefix] primary . unary` — a member access hop through `.`.
#[derive(Debug, PartialEq)]
pub struct RefUnaryNode {
    pub prefix: Option<Token>,
    pub operator: Token,
    pub primary: PrimaryNode,
    pub postfix: Option<Box<UnaryNode>>,
}

/// `[prefix] primary -> unary` — a member access hop through `->`.
#[derive(Debug, PartialEq)]
pub struct PointerRefUnaryNode {
    pub prefix: Option<Token>,
    pub primary: PrimaryNode,
    pub postfix: Option<Box<UnaryNode>>,
}

/// `[prefix] primary ( args )` — a call with an optional argument list
/// (`None` when the parentheses are empty).
#[derive(Debug, PartialEq)]
pub struct FuncCallNode {
    pub prefix: Option<Token>,
    pub primary: PrimaryNode,
    pub params: Option<Vec<ExprNode>>,
}

/// A literal, an identifier, or a parenthesized expression.  `name` is set
/// exactly for identifiers.
#[derive(Debug, PartialEq)]
pub struct PrimaryNode {
    pub name: Option<String>,
    pub value: Const,
}

#[derive(Debug, PartialEq)]
pub enum Const {
    Integer(i64),
    Char(char),
    String(String),
    Identifier,
    ParenthesesExpr(Box<ExprNode>),
}

} // verus!
