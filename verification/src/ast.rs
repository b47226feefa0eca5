//! Top-level definition syntax trees (structs, functions, variables,
//! imports), type references, and the specification-level views of every
//! syntax tree node.
//!
//! The views replace owned strings by character sequences and vectors by
//! sequences, so that the grammar can be written as specification functions
//! producing view values.

use vstd::prelude::*;
use crate::ast_expr::Const;
use crate::ast_expr::ExprNode;
use crate::ast_expr::PrimaryNode;
use crate::ast_expr::UnaryNode;
use crate::ast_stmt::BlockNode;
use crate::ast_stmt::StmtNode;
use crate::token::Token;

verus! {

// ---------------------------------------------------------------------------
// Definition nodes.
// ---------------------------------------------------------------------------
/// A whole compilation unit: import statements, then top-level definitions.
#[derive(Debug, PartialEq)]
pub struct ProgramNode {
    pub import_stmts: Vec<ImportStmtNode>,
    pub defs: TopDefNode,
}

/// `import name (. name)* ;`
#[derive(Debug, PartialEq)]
pub struct ImportStmtNode {
    pub paths: Vec<String>,
}

/// Any top-level definition.
#[derive(Debug, PartialEq)]
pub enum DefNode {
    Struct(DefStructNode),
    Var(DefVarNode),
    Func(DefFuncNode),
}

/// The top-level definitions, split as the parser collects them: struct and
/// variable definitions in `var_defs`, function definitions in `func_defs`.
#[derive(Debug, PartialEq)]
pub struct TopDefNode {
    pub var_defs: Vec<DefNode>,
    pub func_defs: Vec<DefNode>,
}

/// `struct name { (slot ;)* } ;`
#[derive(Debug, PartialEq)]
pub struct DefStructNode {
    pub name: String,
    pub member_list: Vec<SlotNode>,
}

/// `typeref name` — one member or parameter slot.
#[derive(Debug, PartialEq)]
pub struct SlotNode {
    pub typeref: TypeNode,
    pub name: String,
}

/// A type reference: a base type and its trailing modifiers in declaration
/// order.  The last modifier decides scalar, pointer or array shape.
#[derive(Debug, PartialEq)]
pub struct TypeNode {
    pub type_base: TypeBase,
    pub nested_def: Vec<TypeDef>,
}

/// One trailing type modifier.
#[derive(Debug, Clone, Copy, PartialEq, Eq, Structural)]
pub enum TypeDef {
    Array,
    FixedArray(usize),
    Pointer,
    Func,
}

/// A base type token; the struct base carries the struct's name.
#[derive(Debug, PartialEq)]
pub struct TypeBase {
    pub base: Token,
    pub name: Option<String>,
}

/// `typeref name ( params ) block`
#[derive(Debug, PartialEq)]
pub struct DefFuncNode {
    pub typeref: TypeNode,
    pub name: String,
    pub params: ParamsNode,
    pub block: BlockNode,
}

/// `( [slot (, slot)*] )`
#[derive(Debug, PartialEq)]
pub struct ParamsNode {
    pub params: Vec<SlotNode>,
}

/// One bound name of a variable definition, with its optional initializer.
#[derive(Debug, PartialEq)]
pub struct VarInit {
    pub name: String,
    pub init: Option<ExprNode>,
}

/// `typeref name [= expr] (, name [= expr])* ;` — several names may share
/// one type.
#[derive(Debug, PartialEq)]
pub struct DefVarNode {
    pub typeref: TypeNode,
    pub name_map: Vec<VarInit>,
}

// ---------------------------------------------------------------------------
// View types.
// ---------------------------------------------------------------------------
pub struct ProgramNodeV {
    pub import_stmts: Seq<ImportStmtNodeV>,
    pub defs: TopDefNodeV,
}

pub struct ImportStmtNodeV {
    pub paths: Seq<Seq<char>>,
}

pub enum DefNodeV {
    Struct(DefStructNodeV),
    Var(DefVarNodeV),
    Func(DefFuncNodeV),
}

pub struct TopDefNodeV {
    pub var_defs: Seq<DefNodeV>,
    pub func_defs: Seq<DefNodeV>,
}

pub struct DefStructNodeV {
    pub name: Seq<char>,
    pub member_list: Seq<SlotNodeV>,
}

pub struct SlotNodeV {
    pub typeref: TypeNodeV,
    pub name: Seq<char>,
}

pub struct TypeNodeV {
    pub type_base: TypeBaseV,
    pub nested_def: Seq<TypeDef>,
}

pub struct TypeBaseV {
    pub base: Token,
    pub name: Option<Seq<char>>,
}

pub struct DefFuncNodeV {
    pub typeref: TypeNodeV,
    pub name: Seq<char>,
    pub params: ParamsNodeV,
    pub block: BlockNodeV,
}

pub struct ParamsNodeV {
    pub params: Seq<SlotNodeV>,
}

pub struct VarInitV {
    pub name: Seq<char>,
    pub init: Option<ExprNodeV>,
}

pub struct DefVarNodeV {
    pub typeref: TypeNodeV,
    pub name_map: Seq<VarInitV>,
}

pub enum ExprNodeV {
    Assign(AssginmentNodeV),
    Arith(ArithmeticOpNodeV),
    Term(TermNodeV),
}

pub struct AssginmentNodeV {
    pub left_value: Box<ExprNodeV>,
    pub right_value: Box<ExprNodeV>,
}

pub struct ArithmeticOpNodeV {
    pub operator: Token,
    pub left_value: Box<ExprNodeV>,
    pub right_value: Box<ExprNodeV>,
}

pub struct TermNodeV {
    pub case_type: Option<TypeNodeV>,
    pub unary: Box<UnaryNodeV>,
}

pub enum UnaryNodeV {
    Single(SingeUnaryNodeV),
    SelfOp(SelfOpUnaryNodeV),
    Index(ArrayUnaryNodeV),
    MemberRef(RefUnaryNodeV),
    PointerMemberRef(PointerRefUnaryNodeV),
    Call(FuncCallNodeV),
}

pub struct SingeUnaryNodeV {
    pub prefix: Option<Token>,
    pub primary: PrimaryNodeV,
}

pub struct SelfOpUnaryNodeV {
    pub prefix: Option<Token>,
    pub primary: PrimaryNodeV,
    pub postfix: Token,
}

pub struct ArrayUnaryNodeV {
    pub prefix: Option<Token>,
    pub primary: PrimaryNodeV,
    pub postfix: Box<ExprNodeV>,
}

pub struct RefUnaryNodeV {
    pub prefix: Option<Token>,
    pub operator: Token,
    pub primary: PrimaryNodeV,
    pub postfix: Option<Box<UnaryNodeV>>,
}

pub struct PointerRefUnaryNodeV {
    pub prefix: Option<Token>,
    pub primary: PrimaryNodeV,
    pub postfix: Option<Box<UnaryNodeV>>,
}

pub struct FuncCallNodeV {
    pub prefix: Option<Token>,
    pub primary: PrimaryNodeV,
    pub params: Option<Seq<ExprNodeV>>,
}

pub struct PrimaryNodeV {
    pub name: Option<Seq<char>>,
    pub value: ConstV,
}

pub enum ConstV {
    Integer(i64),
    Char(char),
    String(Seq<char>),
    Identifier,
    ParenthesesExpr(Box<ExprNodeV>),
}

pub enum StmtNodeV {
    Block(BlockNodeV),
    If(IfStmtNodeV),
    Expr(ExprStmtNodeV),
    While(WhileStmtNodeV),
    DoWhile(DoWhileStmtNodeV),
    For(ForStmtNodeV),
    Return(ReturnStmtNodeV),
    Break,
    Continue,
}

pub struct BlockNodeV {
    pub defvars: Seq<DefVarNodeV>,
    pub stmts: Seq<StmtNodeV>,
}

pub struct IfStmtNodeV {
    pub condition: ExprNodeV,
    pub if_stmt: Box<StmtNodeV>,
    pub else_stmt: Option<Box<StmtNodeV>>,
}

pub struct ExprStmtNodeV {
    pub expr: ExprNodeV,
}

pub struct WhileStmtNodeV {
    pub condition: ExprNodeV,
    pub stmts: Box<StmtNodeV>,
}

pub struct DoWhileStmtNodeV {
    pub condition: ExprNodeV,
    pub stmts: Box<StmtNodeV>,
}

pub struct ForStmtNodeV {
    pub initial_expr: ExprNodeV,
    pub condition: ExprNodeV,
    pub end_expr: ExprNodeV,
    pub stmts: Box<StmtNodeV>,
}

pub struct ReturnStmtNodeV {
    pub value: ExprNodeV,
}

// ---------------------------------------------------------------------------
// View functions for the non-expression-bearing nodes.
// ---------------------------------------------------------------------------
pub open spec fn view_typebase(b: TypeBase) -> TypeBaseV {
    TypeBaseV {
        base: b.base,
        name: match b.name {
            None => None,
            Some(s) => Some(s@),
        },
    }
}

pub open spec fn view_typeref(t: TypeNode) -> TypeNodeV {
    TypeNodeV { type_base: view_typebase(t.type_base), nested_def: t.nested_def@ }
}

pub open spec fn view_slot(s: SlotNode) -> SlotNodeV {
    SlotNodeV { typeref: view_typeref(s.typeref), name: s.name@ }
}

pub open spec fn view_slots(v: Seq<SlotNode>) -> Seq<SlotNodeV>
    decreases v.len(),
{
    if v.len() == 0 {
        Seq::empty()
    } else {
        view_slots(v.drop_last()).push(view_slot(v.last()))
    }
}

pub open spec fn view_struct(d: DefStructNode) -> DefStructNodeV {
    DefStructNodeV { name: d.name@, member_list: view_slots(d.member_list@) }
}

pub open spec fn view_params(p: ParamsNode) -> ParamsNodeV {
    ParamsNodeV { params: view_slots(p.params@) }
}

pub open spec fn view_strings(v: Seq<String>) -> Seq<Seq<char>>
    decreases v.len(),
{
    if v.len() == 0 {
        Seq::empty()
    } else {
        view_strings(v.drop_last()).push(v.last()@)
    }
}

pub open spec fn view_import(i: ImportStmtNode) -> ImportStmtNodeV {
    ImportStmtNodeV { paths: view_strings(i.paths@) }
}

pub open spec fn view_imports(v: Seq<ImportStmtNode>) -> Seq<ImportStmtNodeV>
    decreases v.len(),
{
    if v.len() == 0 {
        Seq::empty()
    } else {
        view_imports(v.drop_last()).push(view_import(v.last()))
    }
}

// ---------------------------------------------------------------------------
// View functions for expressions, statements and variable definitions
// (mutually recursive).
// ---------------------------------------------------------------------------
pub open spec fn view_expr(e: ExprNode) -> ExprNodeV
    decreases e, 0int,
{
    match e {
        ExprNode::Assign(a) => ExprNodeV::Assign(
            AssginmentNodeV {
                left_value: Box::new(view_expr(*a.left_value)),
                right_value: Box::new(view_expr(*a.right_value)),
            },
        ),
        ExprNode::Arith(a) => ExprNodeV::Arith(
            ArithmeticOpNodeV {
                operator: a.operator,
                left_value: Box::new(view_expr(*a.left_value)),
                right_value: Box::new(view_expr(*a.right_value)),
            },
        ),
        ExprNode::Term(t) => ExprNodeV::Term(
            TermNodeV {
                case_type: match t.case_type {
                    None => None,
                    Some(c) => Some(view_typeref(c)),
                },
                unary: Box::new(view_unary(*t.unary)),
            },
        ),
    }
}

pub open spec fn view_exprs(v: Seq<ExprNode>) -> Seq<ExprNodeV>
    decreases v, v.len(),
{
    if v.len() == 0 {
        Seq::empty()
    } else {
        view_exprs(v.drop_last()).push(view_expr(v.last()))
    }
}

pub open spec fn view_unary(u: UnaryNode) -> UnaryNodeV
    decreases u, 0int,
{
    match u {
        UnaryNode::Single(n) => UnaryNodeV::Single(
            SingeUnaryNodeV { prefix: n.prefix, primary: view_primary(n.primary) },
        ),
        UnaryNode::SelfOp(n) => UnaryNodeV::SelfOp(
            SelfOpUnaryNodeV {
                prefix: n.prefix,
                primary: view_primary(n.primary),
                postfix: n.postfix,
            },
        ),
        UnaryNode::Index(n) => UnaryNodeV::Index(
            ArrayUnaryNodeV {
                prefix: n.prefix,
                primary: view_primary(n.primary),
                postfix: Box::new(view_expr(*n.postfix)),
            },
        ),
        UnaryNode::MemberRef(n) => UnaryNodeV::MemberRef(
            RefUnaryNodeV {
                prefix: n.prefix,
                operator: n.operator,
                primary: view_primary(n.primary),
                postfix: match n.postfix {
                    None => None,
                    Some(p) => Some(Box::new(view_unary(*p))),
                },
            },
        ),
        UnaryNode::PointerMemberRef(n) => UnaryNodeV::PointerMemberRef(
            PointerRefUnaryNodeV {
                prefix: n.prefix,
                primary: view_primary(n.primary),
                postfix: match n.postfix {
                    None => None,
                    Some(p) => Some(Box::new(view_unary(*p))),
                },
            },
        ),
        UnaryNode::Call(n) => UnaryNodeV::Call(
            FuncCallNodeV {
                prefix: n.prefix,
                primary: view_primary(n.primary),
                params: match n.params {
                    None => None,
                    Some(ps) => Some(view_exprs(ps@)),
                },
            },
        ),
    }
}

pub open spec fn view_primary(p: PrimaryNode) -> PrimaryNodeV
    decreases p, 0int,
{
    PrimaryNodeV {
        name: match p.name {
            None => None,
            Some(s) => Some(s@),
        },
        value: match p.value {
            Const::Integer(i) => ConstV::Integer(i),
            Const::Char(c) => ConstV::Char(c),
            Const::String(s) => ConstV::String(s@),
            Const::Identifier => ConstV::Identifier,
            Const::ParenthesesExpr(e) => ConstV::ParenthesesExpr(Box::new(view_expr(*e))),
        },
    }
}

pub open spec fn view_stmt(s: StmtNode) -> StmtNodeV
    decreases s, 0int,
{
    match s {
        StmtNode::Block(b) => StmtNodeV::Block(view_block(b)),
        StmtNode::If(n) => StmtNodeV::If(
            IfStmtNodeV {
                condition: view_expr(n.condition),
                if_stmt: Box::new(view_stmt(*n.if_stmt)),
                else_stmt: match n.else_stmt {
                    None => None,
                    Some(e) => Some(Box::new(view_stmt(*e))),
                },
            },
        ),
        StmtNode::Expr(n) => StmtNodeV::Expr(ExprStmtNodeV { expr: view_expr(n.expr) }),
        StmtNode::While(n) => StmtNodeV::While(
            WhileStmtNodeV {
                condition: view_expr(n.condition),
                stmts: Box::new(view_stmt(*n.stmts)),
            },
        ),
        StmtNode::DoWhile(n) => StmtNodeV::DoWhile(
            DoWhileStmtNodeV {
                condition: view_expr(n.condition),
                stmts: Box::new(view_stmt(*n.stmts)),
            },
        ),
        StmtNode::For(n) => StmtNodeV::For(
            ForStmtNodeV {
                initial_expr: view_expr(n.initial_expr),
                condition: view_expr(n.condition),
                end_expr: view_expr(n.end_expr),
                stmts: Box::new(view_stmt(*n.stmts)),
            },
        ),
        StmtNode::Return(n) => StmtNodeV::Return(ReturnStmtNodeV { value: view_expr(n.value) }),
        StmtNode::Break(_) => StmtNodeV::Break,
        StmtNode::Continue(_) => StmtNodeV::Continue,
    }
}

pub open spec fn view_stmts(v: Seq<StmtNode>) -> Seq<StmtNodeV>
    decreases v, v.len(),
{
    if v.len() == 0 {
        Seq::empty()
    } else {
        view_stmts(v.drop_last()).push(view_stmt(v.last()))
    }
}

pub open spec fn view_block(b: BlockNode) -> BlockNodeV
    decreases b, 0int,
{
    BlockNodeV { defvars: view_defvars(b.defvars@), stmts: view_stmts(b.stmts@) }
}

pub open spec fn view_defvars(v: Seq<DefVarNode>) -> Seq<DefVarNodeV>
    decreases v, v.len(),
{
    if v.len() == 0 {
        Seq::empty()
    } else {
        view_defvars(v.drop_last()).push(view_defvar(v.last()))
    }
}

pub open spec fn view_defvar(d: DefVarNode) -> DefVarNodeV
    decreases d, 0int,
{
    DefVarNodeV { typeref: view_typeref(d.typeref), name_map: view_varinits(d.name_map@) }
}

pub open spec fn view_varinits(v: Seq<VarInit>) -> Seq<VarInitV>
    decreases v, v.len(),
{
    if v.len() == 0 {
        Seq::empty()
    } else {
        view_varinits(v.drop_last()).push(view_varinit(v.last()))
    }
}

pub open spec fn view_varinit(vi: VarInit) -> VarInitV
    decreases vi, 0int,
{
    VarInitV {
        name: vi.name@,
        init: match vi.init {
            None => None,
            Some(e) => Some(view_expr(e)),
        },
    }
}

// ---------------------------------------------------------------------------
// View functions for the remaining definition nodes.
// ---------------------------------------------------------------------------
pub open spec fn view_func(f: DefFuncNode) -> DefFuncNodeV {
    DefFuncNodeV {
        typeref: view_typeref(f.typeref),
        name: f.name@,
        params: view_params(f.params),
        block: view_block(f.block),
    }
}

pub open spec fn view_def(d: DefNode) -> DefNodeV {
    match d {
        DefNode::Struct(s) => DefNodeV::Struct(view_struct(s)),
        DefNode::Var(v) => DefNodeV::Var(view_defvar(v)),
        DefNode::Func(f) => DefNodeV::Func(view_func(f)),
    }
}

pub open spec fn view_defs(v: Seq<DefNode>) -> Seq<DefNodeV>
    decreases v.len(),
{
    if v.len() == 0 {
        Seq::empty()
    } else {
        view_defs(v.drop_last()).push(view_def(v.last()))
    }
}

pub open spec fn view_topdef(t: TopDefNode) -> TopDefNodeV {
    TopDefNodeV { var_defs: view_defs(t.var_defs@), func_defs: view_defs(t.func_defs@) }
}

pub open spec fn view_program(p: ProgramNode) -> ProgramNodeV {
    ProgramNodeV { import_stmts: view_imports(p.import_stmts@), defs: view_topdef(p.defs) }
}

// ---------------------------------------------------------------------------
// Viewing commutes with appending an element.
// ---------------------------------------------------------------------------
pub proof fn lemma_view_exprs_push(v: Seq<ExprNode>, e: ExprNode)
    ensures
        view_exprs(v.push(e)) == view_exprs(v).push(view_expr(e)),
{
    assert(v.push(e).drop_last() =~= v);
    assert(v.push(e).last() == e);
}

pub proof fn lemma_view_stmts_push(v: Seq<StmtNode>, e: StmtNode)
    ensures
        view_stmts(v.push(e)) == view_stmts(v).push(view_stmt(e)),
{
    assert(v.push(e).drop_last() =~= v);
    assert(v.push(e).last() == e);
}

pub proof fn lemma_view_defvars_push(v: Seq<DefVarNode>, e: DefVarNode)
    ensures
        view_defvars(v.push(e)) == view_defvars(v).push(view_defvar(e)),
{
    assert(v.push(e).drop_last() =~= v);
    assert(v.push(e).last() == e);
}

pub proof fn lemma_view_varinits_push(v: Seq<VarInit>, e: VarInit)
    ensures
        view_varinits(v.push(e)) == view_varinits(v).push(view_varinit(e)),
{
    assert(v.push(e).drop_last() =~= v);
    assert(v.push(e).last() == e);
}

pub proof fn lemma_view_slots_push(v: Seq<SlotNode>, e: SlotNode)
    ensures
        view_slots(v.push(e)) == view_slots(v).push(view_slot(e)),
{
    assert(v.push(e).drop_last() =~= v);
    assert(v.push(e).last() == e);
}

pub proof fn lemma_view_imports_push(v: Seq<ImportStmtNode>, e: ImportStmtNode)
    ensures
        view_imports(v.push(e)) == view_imports(v).push(view_import(e)),
{
    assert(v.push(e).drop_last() =~= v);
    assert(v.push(e).last() == e);
}

pub proof fn lemma_view_defs_push(v: Seq<DefNode>, e: DefNode)
    ensures
        view_defs(v.push(e)) == view_defs(v).push(view_def(e)),
{
    assert(v.push(e).drop_last() =~= v);
    assert(v.push(e).last() == e);
}

pub proof fn lemma_view_strings_push(v: Seq<String>, e: String)
    ensures
        view_strings(v.push(e)) == view_strings(v).push(e@),
{
    assert(v.push(e).drop_last() =~= v);
    assert(v.push(e).last() == e);
}

// ---------------------------------------------------------------------------
// Viewing preserves length and is element-wise.
// ---------------------------------------------------------------------------
pub proof fn lemma_view_stmts_len(v: Seq<StmtNode>)
    ensures
        view_stmts(v).len() == v.len(),
    decreases v.len(),
{
    if v.len() > 0 {
        lemma_view_stmts_len(v.drop_last());
    }
}

pub proof fn lemma_view_stmts_index(v: Seq<StmtNode>, i: int)
    requires
        0 <= i < v.len(),
    ensures
        view_stmts(v).len() == v.len(),
        view_stmts(v)[i] == view_stmt(v[i]),
    decreases v.len(),
{
    lemma_view_stmts_len(v);
    if i == v.len() - 1 {
        lemma_view_stmts_len(v.drop_last());
    } else {
        lemma_view_stmts_index(v.drop_last(), i);
        assert(v.drop_last()[i] == v[i]);
    }
}

pub proof fn lemma_view_defs_len(v: Seq<DefNode>)
    ensures
        view_defs(v).len() == v.len(),
    decreases v.len(),
{
    if v.len() > 0 {
        lemma_view_defs_len(v.drop_last());
    }
}

pub proof fn lemma_view_defs_index(v: Seq<DefNode>, i: int)
    requires
        0 <= i < v.len(),
    ensures
        view_defs(v).len() == v.len(),
        view_defs(v)[i] == view_def(v[i]),
    decreases v.len(),
{
    lemma_view_defs_len(v);
    if i == v.len() - 1 {
        lemma_view_defs_len(v.drop_last());
    } else {
        lemma_view_defs_index(v.drop_last(), i);
        assert(v.drop_last()[i] == v[i]);
    }
}

pub proof fn lemma_view_defvars_len(v: Seq<DefVarNode>)
    ensures
        view_defvars(v).len() == v.len(),
    decreases v.len(),
{
    if v.len() > 0 {
        lemma_view_defvars_len(v.drop_last());
    }
}

pub proof fn lemma_view_slots_len(v: Seq<SlotNode>)
    ensures
        view_slots(v).len() == v.len(),
    decreases v.len(),
{
    if v.len() > 0 {
        lemma_view_slots_len(v.drop_last());
    }
}

pub proof fn lemma_view_slots_index(v: Seq<SlotNode>, i: int)
    requires
        0 <= i < v.len(),
    ensures
        view_slots(v).len() == v.len(),
        view_slots(v)[i] == view_slot(v[i]),
    decreases v.len(),
{
    lemma_view_slots_len(v);
    if i == v.len() - 1 {
        lemma_view_slots_len(v.drop_last());
    } else {
        lemma_view_slots_index(v.drop_last(), i);
        assert(v.drop_last()[i] == v[i]);
    }
}

} // verus!
