//! The semantic checker: a second pass over the syntax tree that re-walks
//! the resolver's scope tree in lock-step and validates l-values,
//! member-access legality, indexing, and assignment/initialization type
//! compatibility.
//!
//! The expression-level rules are specified exactly: `spec_compatible` is
//! the shape-compatibility rule, `spec_access_ok` the member-operator rule,
//! `spec_expr_type` the type every expression resolves to, and
//! `spec_check_expr` the acceptance predicate for expressions.  Statement
//! walkers thread the scope replay (`push_block` / `pop_block`) and restore
//! the traversal state they found.

use vstd::prelude::*;
use crate::ast::ConstV;
use crate::ast::lemma_view_defs_index;
use crate::ast::lemma_view_defs_len;
use crate::ast::lemma_view_defvars_len;
use crate::ast::lemma_view_stmts_index;
use crate::ast::lemma_view_stmts_len;
use crate::ast::DefStructNode;
use crate::ast::DefNode;
use crate::ast::DefVarNode;
use crate::ast::ExprNodeV;
use crate::ast::PrimaryNodeV;
use crate::ast::ProgramNode;
use crate::ast::SlotNode;
use crate::ast::TypeDef;
use crate::ast::UnaryNodeV;
use crate::ast::DefFuncNodeV;
use crate::ast::DefNodeV;
use crate::ast::DefVarNodeV;
use crate::ast::view_def;
use crate::ast::view_defs;
use crate::ast::StmtNodeV;
use crate::ast::VarInitV;
use crate::ast::view_block;
use crate::ast::view_defvars;
use crate::ast::view_stmt;
use crate::ast::view_stmts;
use crate::ast::BlockNodeV;
use crate::ast::view_expr;
use crate::ast::view_primary;
use crate::ast::view_unary;
use crate::ast::view_varinits;
use crate::ast_expr::Const;
use crate::ast_expr::ExprNode;
use crate::ast_expr::PrimaryNode;
use crate::ast_expr::RefUnaryNode;
use crate::ast_expr::UnaryNode;
use crate::ast_stmt::BlockNode;
use crate::ast_stmt::StmtNode;
use crate::error::CompileError;
use crate::error::CompileErrorV;
use crate::error::TyBaseV;
use crate::error::TypeError;
use crate::error::TypeErrorV;
use crate::error::base_view;
use crate::error::err_view;
use crate::symbol_table::FuncSig;
use crate::symbol_table::LocalScope;
use crate::symbol_table::TopLevelScope;
use crate::symbol_table::TypeInfo;
use crate::symbol_table::func_idx;
use crate::symbol_table::root_idx;
use crate::symbol_table::spec_lookup;
use crate::symbol_table::stk_ints;
use crate::symbol_table::struct_idx;
use crate::token::Token;
use crate::token::tok_eq;

verus! {

// ---------------------------------------------------------------------------
// The fixed part of the symbol table the checker reads.
// ---------------------------------------------------------------------------
/// The definition data the checker consults: the scope arena, the global
/// struct map, the function map, and the registered scope roots.  The
/// traversal state (scope stack, replay counters) is threaded separately,
/// so these stay fixed across the whole pass.
pub struct DefsV {
    pub arena: Seq<LocalScope>,
    pub structs: Seq<DefStructNode>,
    pub funcs: Seq<FuncSig>,
    pub roots: Seq<(String, usize)>,
}

impl TopLevelScope {
    /// The fixed definition data of this table.
    pub open spec fn defs_view(self) -> DefsV {
        DefsV {
            arena: self.arena@,
            structs: self.global_define_map@,
            funcs: self.func_map@,
            roots: self.scopes@,
        }
    }
}

// ---------------------------------------------------------------------------
// The resolved type of an expression, at the specification level.
// ---------------------------------------------------------------------------
pub struct TyV {
    pub base: TyBaseV,
    pub mods: Seq<TypeDef>,
    pub sidx: Option<int>,
}

/// The executable `TypeInfo` carries what the specification type says.
pub open spec fn info_agrees(i: TypeInfo, v: TyV) -> bool {
    &&& base_view(i.base_type) == v.base
    &&& i.nested_def@ == v.mods
    &&& match v.sidx {
        Some(k) => i.origin_struct matches Some(u) && u as int == k,
        None => i.origin_struct is None,
    }
}

pub open spec fn ty_res_agrees(
    r: Result<TypeInfo, CompileError>,
    sp: Result<TyV, CompileErrorV>,
) -> bool {
    match (r, sp) {
        (Ok(i), Ok(v)) => info_agrees(i, v),
        (Err(a), Err(b)) => err_view(a) == b,
        _ => false,
    }
}

pub open spec fn unit_res_agrees(
    r: Result<(), CompileError>,
    sp: Result<(), CompileErrorV>,
) -> bool {
    match (r, sp) {
        (Ok(_), Ok(_)) => true,
        (Err(a), Err(b)) => err_view(a) == b,
        _ => false,
    }
}

// ---------------------------------------------------------------------------
// The core rules.
// ---------------------------------------------------------------------------
/// Base types are the same.
pub open spec fn tybase_eq(a: TyBaseV, b: TyBaseV) -> bool {
    match (a, b) {
        (TyBaseV::Tok(x), TyBaseV::Tok(y)) => tok_eq(x, y),
        (TyBaseV::StrLit(x), TyBaseV::StrLit(y)) => x == y,
        _ => false,
    }
}

/// The modifier list ends in a compound (array or pointer) modifier.
pub open spec fn ends_compound(m: Seq<TypeDef>) -> bool {
    m.len() > 0 && (m.last() is Array || m.last() is Pointer)
}

/// Two types are compatible for assignment or initialization: identical
/// base types, and either both sides are scalars (no modifiers) or both
/// sides end in an array/pointer modifier.
pub open spec fn spec_compatible(
    lb: Token,
    lm: Seq<TypeDef>,
    rb: Token,
    rm: Seq<TypeDef>,
) -> bool {
    &&& tok_eq(lb, rb)
    &&& ((lm.len() == 0 && rm.len() == 0) || (ends_compound(lm) && ends_compound(rm)))
}

/// The same rule over specification types.
pub open spec fn spec_compat_v(l: TyV, r: TyV) -> bool {
    &&& tybase_eq(l.base, r.base)
    &&& ((l.mods.len() == 0 && r.mods.len() == 0) || (ends_compound(l.mods) && ends_compound(
        r.mods,
    )))
}

/// The modifier list ends in a pointer modifier.
pub open spec fn ends_in_pointer(m: Seq<TypeDef>) -> bool {
    m.len() > 0 && m.last() is Pointer
}

/// The member-access operator rule: `->` is for members whose modifier
/// list ends in a pointer; `.` is for every other member.
pub open spec fn spec_access_ok(op: Token, mods: Seq<TypeDef>) -> bool {
    if op is PointerRef {
        ends_in_pointer(mods)
    } else {
        !ends_in_pointer(mods)
    }
}

/// The first member of a struct with the given name, or -1.
pub open spec fn first_member_idx(ms: Seq<SlotNode>, name: Seq<char>) -> int
    decreases ms.len(),
{
    if ms.len() == 0 {
        -1
    } else if ms.first().name@ == name {
        0
    } else if first_member_idx(ms.drop_first(), name) < 0 {
        -1
    } else {
        1 + first_member_idx(ms.drop_first(), name)
    }
}

/// Whether a prefix operator demands an identifier operand.
pub open spec fn prefix_needs_name(pfx: Option<Token>) -> bool {
    pfx matches Some(p) && (p is Inc || p is Dec || p is Mul || p is Bitand || p is Not)
}

/// The primary of any unary.
pub open spec fn unary_primary(u: UnaryNodeV) -> PrimaryNodeV {
    match u {
        UnaryNodeV::Single(n) => n.primary,
        UnaryNodeV::SelfOp(n) => n.primary,
        UnaryNodeV::Index(n) => n.primary,
        UnaryNodeV::MemberRef(n) => n.primary,
        UnaryNodeV::PointerMemberRef(n) => n.primary,
        UnaryNodeV::Call(n) => n.primary,
    }
}

// ---------------------------------------------------------------------------
// Expression typing, at the specification level.
// ---------------------------------------------------------------------------
/// The specification type of a binding found by lookup.
pub open spec fn spec_entry_type(t: DefsV, si: int, vi: int, n: Seq<char>) -> Result<
    TyV,
    CompileErrorV,
> {
    let entry = t.arena[si].var_map@[vi];
    if entry.typeref.type_base.base is Struct {
        match entry.typeref.type_base.name {
            Some(sn) => {
                let k = struct_idx(t.structs, sn@);
                if k >= 0 {
                    Ok(
                        TyV {
                            base: base_view(entry.typeref.type_base.base),
                            mods: entry.typeref.nested_def@,
                            sidx: Some(k),
                        },
                    )
                } else {
                    Err(CompileErrorV::Resolution(sn@))
                }
            },
            None => Err(CompileErrorV::Resolution(n)),
        }
    } else {
        Ok(
            TyV {
                base: base_view(entry.typeref.type_base.base),
                mods: entry.typeref.nested_def@,
                sidx: None,
            },
        )
    }
}

/// The specification type of a primary.
pub open spec fn spec_primary_type(t: DefsV, stk: Seq<usize>, p: PrimaryNodeV) -> Result<
    TyV,
    CompileErrorV,
> {
    match p.value {
        ConstV::Integer(_) => Ok(TyV { base: TyBaseV::Tok(Token::Int), mods: Seq::empty(), sidx: None }),
        ConstV::Char(_) => Ok(TyV { base: TyBaseV::Tok(Token::Char), mods: Seq::empty(), sidx: None }),
        ConstV::String(s) => Ok(TyV { base: TyBaseV::StrLit(s), mods: Seq::empty(), sidx: None }),
        ConstV::ParenthesesExpr(_) => Ok(
            TyV { base: TyBaseV::Tok(Token::LParentheses), mods: Seq::empty(), sidx: None },
        ),
        ConstV::Identifier => match p.name {
            Some(n) => match spec_lookup(t.arena, stk_ints(stk), n) {
                Some((si, vi)) => spec_entry_type(t, si, vi, n),
                None => Err(CompileErrorV::Resolution(n)),
            },
            None => Err(CompileErrorV::Type(TypeErrorV::NotAName)),
        },
    }
}

/// The specification type of a member chain: starting inside struct `si`,
/// hop `u`'s primary names the accessed member, reached through `op`; the
/// chain's type is the last member's type.
pub open spec fn spec_chain(t: DefsV, si: int, op: Token, u: UnaryNodeV) -> Result<
    TyV,
    CompileErrorV,
>
    decreases u, 0int,
{
    match unary_primary(u).name {
        None => Err(CompileErrorV::Type(TypeErrorV::NotAName)),
        Some(f) => {
            if !(0 <= si < t.structs.len()) {
                Err(CompileErrorV::ScopeSync)
            } else {
                let ms = t.structs[si].member_list@;
                let mi = first_member_idx(ms, f);
                if mi < 0 {
                    Err(CompileErrorV::Resolution(f))
                } else if !spec_access_ok(op, ms[mi].typeref.nested_def@) {
                    Err(
                        CompileErrorV::Type(
                            TypeErrorV::WrongAccessOp {
                                member: f,
                                expected: if op is PointerRef {
                                    Token::Dot
                                } else {
                                    Token::PointerRef
                                },
                            },
                        ),
                    )
                } else {
                    let mty = ms[mi].typeref;
                    match u {
                        UnaryNodeV::MemberRef(m) => match m.postfix {
                            Some(nx) => spec_chain_next(t, f, mty.type_base.base, mty.type_base.name, m.operator, *nx),
                            None => Err(CompileErrorV::Type(TypeErrorV::NotAName)),
                        },
                        UnaryNodeV::PointerMemberRef(m) => match m.postfix {
                            Some(nx) => spec_chain_next(t, f, mty.type_base.base, mty.type_base.name, Token::PointerRef, *nx),
                            None => Err(CompileErrorV::Type(TypeErrorV::NotAName)),
                        },
                        _ => {
                            // End of the chain: the member's own type.
                            if mty.type_base.base is Struct {
                                match mty.type_base.name {
                                    Some(sn) => {
                                        let k = struct_idx(t.structs, sn@);
                                        if k >= 0 {
                                            Ok(
                                                TyV {
                                                    base: base_view(mty.type_base.base),
                                                    mods: mty.nested_def@,
                                                    sidx: Some(k),
                                                },
                                            )
                                        } else {
                                            Err(CompileErrorV::Resolution(sn@))
                                        }
                                    },
                                    None => Err(CompileErrorV::Resolution(f)),
                                }
                            } else {
                                Ok(
                                    TyV {
                                        base: base_view(mty.type_base.base),
                                        mods: mty.nested_def@,
                                        sidx: None,
                                    },
                                )
                            }
                        },
                    }
                }
            }
        },
    }
}

/// Descends into the struct a member names, then continues the chain.
pub open spec fn spec_chain_next(
    t: DefsV,
    f: Seq<char>,
    base: Token,
    sname: Option<String>,
    op: Token,
    nx: UnaryNodeV,
) -> Result<TyV, CompileErrorV>
    decreases nx, 1int,
{
    if !(base is Struct) {
        Err(CompileErrorV::Type(TypeErrorV::NotAStruct { name: f }))
    } else {
        match sname {
            Some(sn) => {
                let k = struct_idx(t.structs, sn@);
                if k >= 0 {
                    spec_chain(t, k, op, nx)
                } else {
                    Err(CompileErrorV::Resolution(sn@))
                }
            },
            None => Err(CompileErrorV::Type(TypeErrorV::NotAStruct { name: f })),
        }
    }
}

/// The specification type of a unary.
pub open spec fn spec_unary_type(t: DefsV, stk: Seq<usize>, u: UnaryNodeV) -> Result<
    TyV,
    CompileErrorV,
> {
    match u {
        UnaryNodeV::Single(n) => spec_primary_type(t, stk, n.primary),
        UnaryNodeV::SelfOp(n) => spec_primary_type(t, stk, n.primary),
        UnaryNodeV::Index(n) => match n.primary.name {
            Some(nm) => match spec_lookup(t.arena, stk_ints(stk), nm) {
                Some((si, vi)) => {
                    let entry = t.arena[si].var_map@[vi];
                    Ok(
                        TyV {
                            base: base_view(entry.typeref.type_base.base),
                            mods: Seq::empty(),
                            sidx: None,
                        },
                    )
                },
                None => Err(CompileErrorV::Resolution(nm)),
            },
            None => Err(CompileErrorV::Type(TypeErrorV::IndexedLiteral)),
        },
        UnaryNodeV::Call(n) => match n.primary.name {
            Some(nm) => {
                let k = func_idx(t.funcs, nm);
                if k >= 0 {
                    Ok(
                        TyV {
                            base: base_view(t.funcs[k].typeref.type_base.base),
                            mods: t.funcs[k].typeref.nested_def@,
                            sidx: None,
                        },
                    )
                } else {
                    Err(CompileErrorV::Resolution(nm))
                }
            },
            None => Err(CompileErrorV::Type(TypeErrorV::NotAName)),
        },
        UnaryNodeV::MemberRef(n) => spec_chain_start(t, stk, n.primary, n.operator, n.postfix),
        UnaryNodeV::PointerMemberRef(n) => spec_chain_start(
            t,
            stk,
            n.primary,
            Token::PointerRef,
            n.postfix,
        ),
    }
}

/// Resolves the base variable of a member chain to a struct, then walks
/// the chain.
pub open spec fn spec_chain_start(
    t: DefsV,
    stk: Seq<usize>,
    p: PrimaryNodeV,
    op: Token,
    postfix: Option<Box<UnaryNodeV>>,
) -> Result<TyV, CompileErrorV> {
    match p.name {
        None => Err(CompileErrorV::Type(TypeErrorV::NotAName)),
        Some(nm) => match spec_lookup(t.arena, stk_ints(stk), nm) {
            None => Err(CompileErrorV::Resolution(nm)),
            Some((si, vi)) => {
                let entry = t.arena[si].var_map@[vi];
                if !(entry.typeref.type_base.base is Struct) {
                    Err(CompileErrorV::Type(TypeErrorV::NotAStruct { name: nm }))
                } else {
                    match entry.typeref.type_base.name {
                        Some(sn) => {
                            let k = struct_idx(t.structs, sn@);
                            if k >= 0 {
                                match postfix {
                                    Some(nx) => spec_chain(t, k, op, *nx),
                                    None => Err(CompileErrorV::Type(TypeErrorV::NotAName)),
                                }
                            } else {
                                Err(CompileErrorV::Resolution(sn@))
                            }
                        },
                        None => Err(CompileErrorV::Type(TypeErrorV::NotAStruct { name: nm })),
                    }
                }
            },
        },
    }
}

/// The specification type of an expression: a term types as its unary, a
/// binary-operator node as its left operand, and an assignment as its left
/// side.
pub open spec fn spec_expr_type(t: DefsV, stk: Seq<usize>, e: ExprNodeV) -> Result<
    TyV,
    CompileErrorV,
>
    decreases e,
{
    match e {
        ExprNodeV::Term(tm) => spec_unary_type(t, stk, *tm.unary),
        ExprNodeV::Arith(a) => spec_expr_type(t, stk, *a.left_value),
        ExprNodeV::Assign(a) => spec_expr_type(t, stk, *a.left_value),
    }
}

// ---------------------------------------------------------------------------
// Expression checking, at the specification level.
// ---------------------------------------------------------------------------
/// Only a bare identifier primary is a legal assignment target.
pub open spec fn spec_is_lv(e: ExprNodeV) -> bool {
    match e {
        ExprNodeV::Term(tm) => unary_primary(*tm.unary).value is Identifier,
        _ => false,
    }
}

/// The acceptance predicate for a unary.
pub open spec fn spec_check_unary(t: DefsV, stk: Seq<usize>, u: UnaryNodeV) -> Result<
    (),
    CompileErrorV,
> {
    match u {
        UnaryNodeV::Single(n) => if prefix_needs_name(n.prefix) && n.primary.name is None {
            Err(CompileErrorV::Type(TypeErrorV::NotAName))
        } else {
            Ok(())
        },
        UnaryNodeV::SelfOp(n) => if n.primary.name is None {
            Err(CompileErrorV::Type(TypeErrorV::NotAName))
        } else {
            Ok(())
        },
        UnaryNodeV::Index(n) => match n.primary.name {
            None => Err(CompileErrorV::Type(TypeErrorV::IndexedLiteral)),
            Some(nm) => match spec_lookup(t.arena, stk_ints(stk), nm) {
                None => Err(CompileErrorV::Resolution(nm)),
                Some((si, vi)) => {
                    let entry = t.arena[si].var_map@[vi];
                    if entry.typeref.nested_def@.len() == 0 {
                        Err(CompileErrorV::Type(TypeErrorV::NotIndexable { name: nm }))
                    } else {
                        Ok(())
                    }
                },
            },
        },
        UnaryNodeV::Call(n) => if prefix_needs_name(n.prefix) && n.primary.name is None {
            Err(CompileErrorV::Type(TypeErrorV::NotAName))
        } else {
            Ok(())
        },
        UnaryNodeV::MemberRef(n) => match spec_chain_start(t, stk, n.primary, n.operator, n.postfix) {
            Ok(_) => Ok(()),
            Err(e) => Err(e),
        },
        UnaryNodeV::PointerMemberRef(n) => match spec_chain_start(
            t,
            stk,
            n.primary,
            Token::PointerRef,
            n.postfix,
        ) {
            Ok(_) => Ok(()),
            Err(e) => Err(e),
        },
    }
}

/// The acceptance predicate for an expression: an assignment needs an
/// identifier target, valid sides, and compatible side types; a
/// binary-operator node needs valid operands; a term needs a valid unary.
/// Assignments do not re-check the target's initializer: initializers are
/// checked once, when their defining block is entered (`spec_check_inits`).
pub open spec fn spec_check_expr(t: DefsV, stk: Seq<usize>, e: ExprNodeV) -> Result<
    (),
    CompileErrorV,
>
    decreases e,
{
    match e {
        ExprNodeV::Term(tm) => spec_check_unary(t, stk, *tm.unary),
        ExprNodeV::Arith(a) => match spec_check_expr(t, stk, *a.left_value) {
            Err(er) => Err(er),
            Ok(_) => spec_check_expr(t, stk, *a.right_value),
        },
        ExprNodeV::Assign(a) => {
            if !spec_is_lv(*a.left_value) {
                Err(CompileErrorV::Type(TypeErrorV::NotLeftValue))
            } else {
                match spec_check_expr(t, stk, *a.left_value) {
                    Err(er) => Err(er),
                    Ok(_) => match spec_check_expr(t, stk, *a.right_value) {
                        Err(er) => Err(er),
                        Ok(_) => match spec_expr_type(t, stk, *a.left_value) {
                            Err(er) => Err(er),
                            Ok(lt) => match spec_expr_type(t, stk, *a.right_value) {
                                Err(er) => Err(er),
                                Ok(rt) => if spec_compat_v(lt, rt) {
                                    Ok(())
                                } else {
                                    Err(
                                        CompileErrorV::Type(
                                            TypeErrorV::Incompatible {
                                                left: lt.base,
                                                right: rt.base,
                                            },
                                        ),
                                    )
                                },
                            },
                        },
                    },
                }
            }
        },
    }
}

/// The acceptance predicate for one variable definition's initializers:
/// each initializer must type-check compatibly against the declared type.
pub open spec fn spec_check_inits(
    t: DefsV,
    stk: Seq<usize>,
    declared: TyBaseV,
    dmods: Seq<TypeDef>,
    bs: Seq<VarInitV>,
) -> Result<(), CompileErrorV>
    decreases bs.len(),
{
    if bs.len() == 0 {
        Ok(())
    } else {
        match spec_check_inits(t, stk, declared, dmods, bs.drop_last()) {
            Err(er) => Err(er),
            Ok(_) => match bs.last().init {
                None => Ok(()),
                Some(e) => match spec_expr_type(t, stk, e) {
                    Err(er) => Err(er),
                    Ok(rt) => if tybase_eq(declared, rt.base) && ((dmods.len() == 0
                        && rt.mods.len() == 0) || (ends_compound(dmods) && ends_compound(
                        rt.mods,
                    ))) {
                        Ok(())
                    } else {
                        Err(
                            CompileErrorV::Type(
                                TypeErrorV::Incompatible { left: declared, right: rt.base },
                            ),
                        )
                    },
                },
            },
        }
    }
}


// ---------------------------------------------------------------------------
// Small facts about the rules.
// ---------------------------------------------------------------------------
/// Token equality and base-type equality agree.
pub proof fn lemma_tok_eq_base_view(a: Token, b: Token)
    ensures
        tok_eq(a, b) == tybase_eq(base_view(a), base_view(b)),
{
}

/// With every member before `j` missing the name and `j` matching, `j` is
/// the first member with the name.
proof fn lemma_first_member_hit(ms: Seq<SlotNode>, name: Seq<char>, j: int)
    requires
        0 <= j < ms.len(),
        forall|k: int| 0 <= k < j ==> ms[k].name@ != name,
        ms[j].name@ == name,
    ensures
        first_member_idx(ms, name) == j,
    decreases ms.len(),
{
    if j == 0 {
        assert(ms.first() == ms[0]);
    } else {
        assert(ms.first() == ms[0]);
        assert(forall|k: int| 0 <= k < j - 1 ==> ms.drop_first()[k] == ms[k + 1]);
        lemma_first_member_hit(ms.drop_first(), name, j - 1);
    }
}

/// With every member missing the name, there is no first member with it.
proof fn lemma_first_member_miss(ms: Seq<SlotNode>, name: Seq<char>)
    requires
        forall|k: int| 0 <= k < ms.len() ==> ms[k].name@ != name,
    ensures
        first_member_idx(ms, name) < 0,
    decreases ms.len(),
{
    if ms.len() > 0 {
        assert(ms.first() == ms[0]);
        assert(forall|k: int| 0 <= k < ms.len() - 1 ==> ms.drop_first()[k] == ms[k + 1]);
        lemma_first_member_miss(ms.drop_first(), name);
    }
}

/// An initializer failure in a prefix of the bindings is the failure of
/// the whole binding list.
proof fn lemma_inits_err_mono(
    t: DefsV,
    stk: Seq<usize>,
    declared: TyBaseV,
    dmods: Seq<TypeDef>,
    bs: Seq<VarInitV>,
    k: int,
)
    requires
        0 <= k <= bs.len(),
        spec_check_inits(t, stk, declared, dmods, bs.subrange(0, k)) is Err,
    ensures
        spec_check_inits(t, stk, declared, dmods, bs) == spec_check_inits(
            t,
            stk,
            declared,
            dmods,
            bs.subrange(0, k),
        ),
    decreases bs.len() - k,
{
    if k == bs.len() {
        assert(bs.subrange(0, k) =~= bs);
    } else {
        assert(bs.subrange(0, k + 1).drop_last() =~= bs.subrange(0, k));
        lemma_inits_err_mono(t, stk, declared, dmods, bs, k + 1);
    }
}

// ---------------------------------------------------------------------------
// Executable checking.
// ---------------------------------------------------------------------------
/// Decides `ends_in_pointer`.
pub fn ends_pointer_exec(v: &Vec<TypeDef>) -> (r: bool)
    ensures
        r == ends_in_pointer(v@),
{
    if v.len() == 0 {
        false
    } else {
        matches!(v[v.len() - 1], TypeDef::Pointer)
    }
}

/// Decides `ends_compound`.
pub fn ends_compound_exec(v: &Vec<TypeDef>) -> (r: bool)
    ensures
        r == ends_compound(v@),
{
    if v.len() == 0 {
        false
    } else {
        matches!(v[v.len() - 1], TypeDef::Array | TypeDef::Pointer)
    }
}

/// The assignment/initialization compatibility rule: identical base
/// types, and matching scalar or compound shapes on both sides.
pub fn check_type_compatible(
    left: (Token, Vec<TypeDef>),
    right: (Token, Vec<TypeDef>),
) -> (r: Result<(), CompileError>)
    ensures
        r is Ok <==> spec_compatible(left.0, left.1@, right.0, right.1@),
        r matches Err(e) ==> e == CompileError::Type(
            TypeError::Incompatible { left: left.0, right: right.0 },
        ),
{
    let ok = crate::token::token_eq(&left.0, &right.0) && ((left.1.len() == 0 && right.1.len()
        == 0) || (ends_compound_exec(&left.1) && ends_compound_exec(&right.1)));
    if ok {
        Ok(())
    } else {
        Err(CompileError::Type(TypeError::Incompatible { left: left.0, right: right.0 }))
    }
}

/// The first member of a struct with the given name.
#[verifier::loop_isolation(false)]
fn find_member(ms: &Vec<SlotNode>, name: &String) -> (r: Option<usize>)
    ensures
        match r {
            Some(j) => j as int == first_member_idx(ms@, name@) && j < ms@.len(),
            None => first_member_idx(ms@, name@) < 0,
        },
{
    let mut j: usize = 0;
    while j < ms.len()
        invariant
            j <= ms@.len(),
            forall|k: int| 0 <= k < j ==> ms@[k].name@ != name@,
        decreases ms@.len() - j,
    {
        if ms[j].name == *name {
            proof {
                lemma_first_member_hit(ms@, name@, j as int);
            }
            return Some(j);
        }
        j = j + 1;
    }
    proof {
        lemma_first_member_miss(ms@, name@);
    }
    None
}

impl PrimaryNode {
    /// The token that summarizes this primary for typing purposes.  An
    /// identifier primary without a recorded name yields an empty name.
    pub fn get_primary_type(&self) -> (r: Token)
        ensures
            match self.value {
                Const::Integer(_) => r is Int,
                Const::Char(_) => r is Char,
                Const::String(_) => r matches Token::String(x) && (self.value matches Const::String(s) && x@ == s@),
                Const::ParenthesesExpr(_) => r is LParentheses,
                Const::Identifier => r matches Token::Name(x) && (match self.name {
                    Some(n) => x@ == n@,
                    None => x@ == Seq::<char>::empty(),
                }),
            },
    {
        match &self.value {
            Const::Integer(_) => Token::Int,
            Const::Char(_) => Token::Char,
            Const::String(s) => Token::String(s.clone()),
            Const::ParenthesesExpr(_) => Token::LParentheses,
            Const::Identifier => match &self.name {
                Some(n) => Token::Name(n.clone()),
                None => Token::Name(String::new()),
            },
        }
    }

    /// Only identifier primaries are legal assignment targets.
    pub fn is_leftvalue(&self) -> (r: Result<(), CompileError>)
        ensures
            r is Ok <==> self.value is Identifier,
            r matches Err(e) ==> e == CompileError::Type(TypeError::NotLeftValue),
    {
        match &self.value {
            Const::Identifier => Ok(()),
            _ => Err(CompileError::Type(TypeError::NotLeftValue)),
        }
    }

    /// The identifier this primary names, if it is one.
    pub fn get_name(&self) -> (r: Option<&String>)
        ensures
            match r {
                Some(s) => self.name matches Some(n) && s@ == n@,
                None => self.name is None,
            },
    {
        match &self.name {
            Some(n) => Some(n),
            None => None,
        }
    }
}


/// The primary of any unary, with its view connected to the unary's view.
pub fn primary_of(u: &UnaryNode) -> (r: &PrimaryNode)
    ensures
        view_primary(*r) == unary_primary(view_unary(*u)),
{
    match u {
        UnaryNode::Single(n) => &n.primary,
        UnaryNode::SelfOp(n) => &n.primary,
        UnaryNode::Index(n) => &n.primary,
        UnaryNode::MemberRef(n) => &n.primary,
        UnaryNode::PointerMemberRef(n) => &n.primary,
        UnaryNode::Call(n) => &n.primary,
    }
}

/// The type of a primary in the active scopes.
fn primary_type(p: &PrimaryNode, scope: &TopLevelScope) -> (r: Result<TypeInfo, CompileError>)
    ensures
        ty_res_agrees(r, spec_primary_type(scope.defs_view(), scope.scope_stack@, view_primary(*p))),
{
    match &p.value {
        Const::Integer(_) => Ok(
            TypeInfo {
                name: String::new(),
                origin_struct: None,
                origin_base: None,
                base_type: Token::Int,
                nested_def: Vec::new(),
            },
        ),
        Const::Char(_) => Ok(
            TypeInfo {
                name: String::new(),
                origin_struct: None,
                origin_base: None,
                base_type: Token::Char,
                nested_def: Vec::new(),
            },
        ),
        Const::String(st) => Ok(
            TypeInfo {
                name: String::new(),
                origin_struct: None,
                origin_base: None,
                base_type: Token::String(st.clone()),
                nested_def: Vec::new(),
            },
        ),
        Const::ParenthesesExpr(_) => Ok(
            TypeInfo {
                name: String::new(),
                origin_struct: None,
                origin_base: None,
                base_type: Token::LParentheses,
                nested_def: Vec::new(),
            },
        ),
        Const::Identifier => match &p.name {
            Some(n) => {
                let r0 = scope.get_type(n);
                proof {
                    assert(view_primary(*p).value is Identifier);
                    assert(view_primary(*p).name == Some(n@));
                }
                r0
            },
            None => Err(CompileError::Type(TypeError::NotAName)),
        },
    }
}

/// Copies a modifier list.
#[verifier::loop_isolation(false)]
fn copy_mods(v: &Vec<TypeDef>) -> (r: Vec<TypeDef>)
    ensures
        r@ == v@,
{
    let mut out: Vec<TypeDef> = Vec::new();
    let mut k: usize = 0;
    while k < v.len()
        invariant
            k <= v@.len(),
            out@ =~= v@.subrange(0, k as int),
        decreases v@.len() - k,
    {
        out.push(v[k]);
        k = k + 1;
    }
    proof {
        assert(out@ =~= v@);
    }
    out
}

impl RefUnaryNode {
    /// The member-operator rule: `->` is accepted exactly for members
    /// whose modifier list ends in a pointer, `.` exactly for every other
    /// member; a mismatch names the operator that would have been
    /// accepted.
    pub fn check_access_op(&self, op: &Token, member: &SlotNode) -> (r: Result<
        (),
        CompileError,
    >)
        ensures
            r is Ok <==> spec_access_ok(*op, member.typeref.nested_def@),
            r matches Err(e) ==> e == CompileError::Type(
                TypeError::WrongAccessOp {
                    member: member.name,
                    expected: if *op is PointerRef {
                        Token::Dot
                    } else {
                        Token::PointerRef
                    },
                },
            ),
    {
        check_access_op_rule(op, member)
    }
}

/// Decides the member-operator rule for one member.
pub fn check_access_op_rule(op: &Token, member: &SlotNode) -> (r: Result<(), CompileError>)
    ensures
        r is Ok <==> spec_access_ok(*op, member.typeref.nested_def@),
        r matches Err(e) ==> e == CompileError::Type(
            TypeError::WrongAccessOp {
                member: member.name,
                expected: if *op is PointerRef {
                    Token::Dot
                } else {
                    Token::PointerRef
                },
            },
        ),
{
    let arrow = matches!(op, Token::PointerRef);
    let ok = if arrow {
        ends_pointer_exec(&member.typeref.nested_def)
    } else {
        !ends_pointer_exec(&member.typeref.nested_def)
    };
    if ok {
        Ok(())
    } else {
        Err(
            CompileError::Type(
                TypeError::WrongAccessOp {
                    member: member.name.clone(),
                    expected: if arrow {
                        Token::Dot
                    } else {
                        Token::PointerRef
                    },
                },
            ),
        )
    }
}

/// Walks a member chain inside struct `si`: the hop `u`'s primary names
/// the accessed member, reached through `op`; yields the last member's
/// type.
fn chain_walk(scope: &TopLevelScope, si: usize, op: &Token, u: &UnaryNode) -> (r: Result<
    TypeInfo,
    CompileError,
>)
    requires
        si < scope.defs_view().structs.len(),
    ensures
        ty_res_agrees(r, spec_chain(scope.defs_view(), si as int, *op, view_unary(*u))),
    decreases *u,
{
    let pn = primary_of(u);
    let f = match &pn.name {
        Some(nm) => nm,
        None => {
            return Err(CompileError::Type(TypeError::NotAName));
        },
    };
    let ms = &scope.global_define_map[si].member_list;
    let mi = match find_member(ms, f) {
        Some(j) => j,
        None => {
            return Err(CompileError::Resolution(crate::error::ResolutionError { name: f.clone() }));
        },
    };
    let member = &ms[mi];
    let arrow = matches!(op, Token::PointerRef);
    let ok_op = if arrow {
        ends_pointer_exec(&member.typeref.nested_def)
    } else {
        !ends_pointer_exec(&member.typeref.nested_def)
    };
    if !ok_op {
        return Err(
            CompileError::Type(
                TypeError::WrongAccessOp {
                    member: f.clone(),
                    expected: if arrow {
                        Token::Dot
                    } else {
                        Token::PointerRef
                    },
                },
            ),
        );
    }
    let next: Option<(&Option<Box<UnaryNode>>, Token)> = match u {
        UnaryNode::MemberRef(m) => Some((&m.postfix, m.operator.clone())),
        UnaryNode::PointerMemberRef(m) => Some((&m.postfix, Token::PointerRef)),
        _ => None,
    };
    match next {
        Some((postfix, inner_op)) => {
            let nx = match postfix {
                Some(b) => b,
                None => {
                    return Err(CompileError::Type(TypeError::NotAName));
                },
            };
            if !matches!(member.typeref.type_base.base, Token::Struct) {
                return Err(
                    CompileError::Type(TypeError::NotAStruct { name: f.clone() }),
                );
            }
            match &member.typeref.type_base.name {
                Some(sn) => match scope.find_struct(sn) {
                    Some(k) => chain_walk(scope, k, &inner_op, nx),
                    None => Err(
                        CompileError::Resolution(
                            crate::error::ResolutionError { name: sn.clone() },
                        ),
                    ),
                },
                None => Err(CompileError::Type(TypeError::NotAStruct { name: f.clone() })),
            }
        },
        None => {
            // End of the chain: the member's own type.
            let base = member.typeref.type_base.base.clone();
            let mods = copy_mods(&member.typeref.nested_def);
            if matches!(base, Token::Struct) {
                match &member.typeref.type_base.name {
                    Some(sn) => match scope.find_struct(sn) {
                        Some(k) => Ok(
                            TypeInfo {
                                name: f.clone(),
                                origin_struct: Some(k),
                                origin_base: None,
                                base_type: base,
                                nested_def: mods,
                            },
                        ),
                        None => Err(
                            CompileError::Resolution(
                                crate::error::ResolutionError { name: sn.clone() },
                            ),
                        ),
                    },
                    None => Err(
                        CompileError::Resolution(
                            crate::error::ResolutionError { name: f.clone() },
                        ),
                    ),
                }
            } else {
                Ok(
                    TypeInfo {
                        name: f.clone(),
                        origin_struct: None,
                        origin_base: None,
                        base_type: base,
                        nested_def: mods,
                    },
                )
            }
        },
    }
}

/// Resolves the base variable of a member chain and walks the chain.
fn chain_start(
    scope: &TopLevelScope,
    pn: &PrimaryNode,
    op: &Token,
    postfix: &Option<Box<UnaryNode>>,
) -> (r: Result<TypeInfo, CompileError>)
    ensures
        ty_res_agrees(
            r,
            spec_chain_start(
                scope.defs_view(),
                scope.scope_stack@,
                view_primary(*pn),
                *op,
                match view_unary_opt(*postfix) {
                    Some(v) => Some(Box::new(v)),
                    None => None,
                },
            ),
        ),
{
    let nm = match &pn.name {
        Some(n) => n,
        None => {
            return Err(CompileError::Type(TypeError::NotAName));
        },
    };
    let hit = match scope.lookup_entry(nm) {
        Some(x) => x,
        None => {
            return Err(
                CompileError::Resolution(crate::error::ResolutionError { name: nm.clone() }),
            );
        },
    };
    let entry = &scope.arena[hit.0].var_map[hit.1];
    if !matches!(entry.typeref.type_base.base, Token::Struct) {
        return Err(CompileError::Type(TypeError::NotAStruct { name: nm.clone() }));
    }
    match &entry.typeref.type_base.name {
        Some(sn) => match scope.find_struct(sn) {
            Some(k) => match postfix {
                Some(nx) => chain_walk(scope, k, op, nx),
                None => Err(CompileError::Type(TypeError::NotAName)),
            },
            None => Err(
                CompileError::Resolution(crate::error::ResolutionError { name: sn.clone() }),
            ),
        },
        None => Err(CompileError::Type(TypeError::NotAStruct { name: nm.clone() })),
    }
}

/// The view of an optional chained unary.
pub open spec fn view_unary_opt(p: Option<Box<UnaryNode>>) -> Option<UnaryNodeV> {
    match p {
        Some(b) => Some(view_unary(*b)),
        None => None,
    }
}

impl UnaryNode {
    /// Only a unary whose primary is an identifier is a legal assignment
    /// target.
    pub fn is_leftvalue(&self) -> (r: Result<(), CompileError>)
        ensures
            r is Ok <==> unary_primary(view_unary(*self)).value is Identifier,
            r matches Err(e) ==> e == CompileError::Type(TypeError::NotLeftValue),
    {
        primary_of(self).is_leftvalue()
    }

    /// The identifier this unary's primary names, if any.
    pub fn get_name(&self) -> (r: Option<&String>)
        ensures
            match r {
                Some(s) => unary_primary(view_unary(*self)).name matches Some(n) && s@ == n,
                None => unary_primary(view_unary(*self)).name is None,
            },
    {
        primary_of(self).get_name()
    }

    /// The type this unary resolves to in the active scopes.
    pub fn get_type(&self, scope: &TopLevelScope) -> (r: Result<TypeInfo, CompileError>)
        ensures
            ty_res_agrees(r, spec_unary_type(scope.defs_view(), scope.scope_stack@, view_unary(*self))),
    {
        match self {
            UnaryNode::Single(n) => {
                let r0 = primary_type(&n.primary, scope);
                proof {
                    assert(view_unary(*self) matches UnaryNodeV::Single(nv) && nv.primary
                        == view_primary(n.primary));
                    assert(spec_unary_type(scope.defs_view(), scope.scope_stack@, view_unary(*self))
                        == spec_primary_type(scope.defs_view(), scope.scope_stack@, view_primary(n.primary)));
                }
                r0
            },
            UnaryNode::SelfOp(n) => {
                let r0 = primary_type(&n.primary, scope);
                proof {
                    assert(view_unary(*self) matches UnaryNodeV::SelfOp(nv) && nv.primary
                        == view_primary(n.primary));
                }
                r0
            },
            UnaryNode::Index(n) => match &n.primary.name {
                Some(nm) => match scope.lookup_entry(nm) {
                    Some(hit) => {
                        let entry = &scope.arena[hit.0].var_map[hit.1];
                        proof {
                            assert(view_unary(*self) matches UnaryNodeV::Index(nv) && nv.primary
                                == view_primary(n.primary));
                            assert(view_primary(n.primary).name == Some(nm@));
                        }
                        Ok(
                            TypeInfo {
                                name: nm.clone(),
                                origin_struct: None,
                                origin_base: None,
                                base_type: entry.typeref.type_base.base.clone(),
                                nested_def: Vec::new(),
                            },
                        )
                    },
                    None => Err(
                        CompileError::Resolution(
                            crate::error::ResolutionError { name: nm.clone() },
                        ),
                    ),
                },
                None => Err(CompileError::Type(TypeError::IndexedLiteral)),
            },
            UnaryNode::Call(n) => {
                proof {
                    assert(view_unary(*self) matches UnaryNodeV::Call(nv) && nv.primary
                        == view_primary(n.primary) && nv.prefix == n.prefix);
                }
                match &n.primary.name {
                    Some(nm) => match scope.find_func(nm) {
                        Some(ix) => {
                            let sig = &scope.func_map[ix];
                            Ok(
                                TypeInfo {
                                    name: nm.clone(),
                                    origin_struct: None,
                                    origin_base: None,
                                    base_type: sig.typeref.type_base.base.clone(),
                                    nested_def: copy_mods(&sig.typeref.nested_def),
                                },
                            )
                        },
                        None => Err(
                            CompileError::Resolution(
                                crate::error::ResolutionError { name: nm.clone() },
                            ),
                        ),
                    },
                    None => Err(CompileError::Type(TypeError::NotAName)),
                }
            },
            UnaryNode::MemberRef(n) => {
                let r0 = chain_start(scope, &n.primary, &n.operator, &n.postfix);
                proof {
                    assert(view_unary(*self) matches UnaryNodeV::MemberRef(nv) && nv.primary
                        == view_primary(n.primary) && nv.operator == n.operator && nv.postfix
                        == (match n.postfix {
                        None => None,
                        Some(p) => Some(Box::new(view_unary(*p))),
                    }));
                    assert((match view_unary_opt(n.postfix) {
                        Some(v) => Some(Box::new(v)),
                        None => None,
                    }) == (match n.postfix {
                        None => None,
                        Some(p) => Some(Box::new(view_unary(*p))),
                    }));
                }
                r0
            },
            UnaryNode::PointerMemberRef(n) => {
                let r0 = chain_start(scope, &n.primary, &Token::PointerRef, &n.postfix);
                proof {
                    assert(view_unary(*self) matches UnaryNodeV::PointerMemberRef(nv) && nv.primary
                        == view_primary(n.primary) && nv.postfix == (match n.postfix {
                        None => None,
                        Some(p) => Some(Box::new(view_unary(*p))),
                    }));
                    assert((match view_unary_opt(n.postfix) {
                        Some(v) => Some(Box::new(v)),
                        None => None,
                    }) == (match n.postfix {
                        None => None,
                        Some(p) => Some(Box::new(view_unary(*p))),
                    }));
                }
                r0
            },
        }
    }

    /// Validates this unary: prefix-operand and postfix rules, indexing
    /// legality, and member-access chains.
    pub fn check_expr_validity(&self, scope: &TopLevelScope) -> (r: Result<(), CompileError>)
        ensures
            unit_res_agrees(r, spec_check_unary(scope.defs_view(), scope.scope_stack@, view_unary(*self))),
    {
        match self {
            UnaryNode::Single(n) => {
                proof {
                    assert(view_unary(*self) matches UnaryNodeV::Single(nv) && nv.primary
                        == view_primary(n.primary) && nv.prefix == n.prefix);
                }
                if is_needy_prefix(&n.prefix) && n.primary.get_name().is_none() {
                    Err(CompileError::Type(TypeError::NotAName))
                } else {
                    Ok(())
                }
            },
            UnaryNode::SelfOp(n) => {
                proof {
                    assert(view_unary(*self) matches UnaryNodeV::SelfOp(nv) && nv.primary
                        == view_primary(n.primary) && nv.prefix == n.prefix);
                }
                if n.primary.get_name().is_none() {
                    Err(CompileError::Type(TypeError::NotAName))
                } else {
                    Ok(())
                }
            },
            UnaryNode::Index(n) => {
                proof {
                    assert(view_unary(*self) matches UnaryNodeV::Index(nv) && nv.primary
                        == view_primary(n.primary));
                }
                match &n.primary.name {
                    None => Err(CompileError::Type(TypeError::IndexedLiteral)),
                    Some(nm) => match scope.lookup_entry(nm) {
                        None => Err(
                            CompileError::Resolution(
                                crate::error::ResolutionError { name: nm.clone() },
                            ),
                        ),
                        Some(hit) => {
                            let entry = &scope.arena[hit.0].var_map[hit.1];
                            if entry.typeref.nested_def.len() == 0 {
                                Err(
                                    CompileError::Type(
                                        TypeError::NotIndexable { name: nm.clone() },
                                    ),
                                )
                            } else {
                                Ok(())
                            }
                        },
                    },
                }
            },
            UnaryNode::Call(n) => {
                proof {
                    assert(view_unary(*self) matches UnaryNodeV::Call(nv) && nv.primary
                        == view_primary(n.primary) && nv.prefix == n.prefix);
                }
                if is_needy_prefix(&n.prefix) && n.primary.get_name().is_none() {
                    Err(CompileError::Type(TypeError::NotAName))
                } else {
                    Ok(())
                }
            },
            UnaryNode::MemberRef(n) => {
                let r0 = chain_start(scope, &n.primary, &n.operator, &n.postfix);
                proof {
                    assert(view_unary(*self) matches UnaryNodeV::MemberRef(nv) && nv.primary
                        == view_primary(n.primary) && nv.operator == n.operator && nv.postfix
                        == (match n.postfix {
                        None => None,
                        Some(p) => Some(Box::new(view_unary(*p))),
                    }));
                    assert((match view_unary_opt(n.postfix) {
                        Some(v) => Some(Box::new(v)),
                        None => None,
                    }) == (match n.postfix {
                        None => None,
                        Some(p) => Some(Box::new(view_unary(*p))),
                    }));
                }
                match r0 {
                    Ok(_) => Ok(()),
                    Err(e) => Err(e),
                }
            },
            UnaryNode::PointerMemberRef(n) => {
                let r0 = chain_start(scope, &n.primary, &Token::PointerRef, &n.postfix);
                proof {
                    assert(view_unary(*self) matches UnaryNodeV::PointerMemberRef(nv) && nv.primary
                        == view_primary(n.primary) && nv.postfix == (match n.postfix {
                        None => None,
                        Some(p) => Some(Box::new(view_unary(*p))),
                    }));
                    assert((match view_unary_opt(n.postfix) {
                        Some(v) => Some(Box::new(v)),
                        None => None,
                    }) == (match n.postfix {
                        None => None,
                        Some(p) => Some(Box::new(view_unary(*p))),
                    }));
                }
                match r0 {
                    Ok(_) => Ok(()),
                    Err(e) => Err(e),
                }
            },
        }
    }
}

/// Decides `prefix_needs_name`.
fn is_needy_prefix(pfx: &Option<Token>) -> (r: bool)
    ensures
        r == prefix_needs_name(*pfx),
{
    match pfx {
        Some(p) => matches!(
            p,
            Token::Inc | Token::Dec | Token::Mul | Token::Bitand | Token::Not
        ),
        None => false,
    }
}

impl ExprNode {
    /// Only a term whose primary is an identifier is a legal assignment
    /// target.
    pub fn is_leftvalue(&self) -> (r: Result<(), CompileError>)
        ensures
            r is Ok <==> spec_is_lv(view_expr(*self)),
            r matches Err(e) ==> e == CompileError::Type(TypeError::NotLeftValue),
    {
        match self {
            ExprNode::Term(t) => t.unary.is_leftvalue(),
            _ => Err(CompileError::Type(TypeError::NotLeftValue)),
        }
    }

    /// The type this expression resolves to in the active scopes.
    pub fn get_type(&self, scope: &TopLevelScope) -> (r: Result<TypeInfo, CompileError>)
        ensures
            ty_res_agrees(r, spec_expr_type(scope.defs_view(), scope.scope_stack@, view_expr(*self))),
        decreases *self,
    {
        match self {
            ExprNode::Term(t) => t.unary.get_type(scope),
            ExprNode::Arith(a) => a.left_value.get_type(scope),
            ExprNode::Assign(a) => a.left_value.get_type(scope),
        }
    }

    /// Validates this expression against the l-value, member-access,
    /// indexing and compatibility rules.
    pub fn check_expr_validity(&self, scope: &TopLevelScope) -> (r: Result<(), CompileError>)
        ensures
            unit_res_agrees(r, spec_check_expr(scope.defs_view(), scope.scope_stack@, view_expr(*self))),
        decreases *self,
    {
        match self {
            ExprNode::Term(t) => t.unary.check_expr_validity(scope),
            ExprNode::Arith(a) => {
                let l = a.left_value.check_expr_validity(scope);
                match l {
                    Err(e) => Err(e),
                    Ok(_) => a.right_value.check_expr_validity(scope),
                }
            },
            ExprNode::Assign(a) => {
                match a.left_value.is_leftvalue() {
                    Err(e) => {
                        return Err(e);
                    },
                    Ok(_) => {
                    },
                }
                match a.left_value.check_expr_validity(scope) {
                    Err(e) => {
                        return Err(e);
                    },
                    Ok(_) => {
                    },
                }
                match a.right_value.check_expr_validity(scope) {
                    Err(e) => {
                        return Err(e);
                    },
                    Ok(_) => {
                    },
                }
                let lt = match a.left_value.get_type(scope) {
                    Err(e) => {
                        return Err(e);
                    },
                    Ok(i) => i,
                };
                let rt = match a.right_value.get_type(scope) {
                    Err(e) => {
                        return Err(e);
                    },
                    Ok(i) => i,
                };
                proof {
                    lemma_tok_eq_base_view(lt.base_type, rt.base_type);
                }
                check_type_compatible(
                    (lt.base_type, lt.nested_def),
                    (rt.base_type, rt.nested_def),
                )
            },
        }
    }
}

/// Checks one variable definition's initializers against its declared
/// type, in order.  Initializer checking happens when the defining block
/// is entered, not lazily at the variable's first use: this resolves the
/// design's open question deliberately, so an initializer that violates
/// the compatibility rule is reported even when its variable is never
/// referenced afterwards.
#[verifier::loop_isolation(false)]
pub fn check_init_type(dv: &DefVarNode, scope: &TopLevelScope) -> (r: Result<(), CompileError>)
    ensures
        unit_res_agrees(
            r,
            spec_check_inits(
                scope.defs_view(),
                scope.scope_stack@,
                base_view(dv.typeref.type_base.base),
                dv.typeref.nested_def@,
                view_varinits(dv.name_map@),
            ),
        ),
{
    let ghost t = scope.defs_view();
    let ghost stk = scope.scope_stack@;
    let ghost declared = base_view(dv.typeref.type_base.base);
    let ghost dmods = dv.typeref.nested_def@;
    let ghost full = view_varinits(dv.name_map@);
    let mut k: usize = 0;
    proof {
        assert(view_varinits(dv.name_map@.subrange(0, 0)) =~= Seq::<VarInitV>::empty());
        assert(dv.name_map@.subrange(0, 0) =~= Seq::<crate::ast::VarInit>::empty());
        lemma_view_varinits_len(dv.name_map@);
    }
    while k < dv.name_map.len()
        invariant
            k <= dv.name_map@.len(),
            t == scope.defs_view(),
            stk == scope.scope_stack@,
            spec_check_inits(
                t,
                stk,
                declared,
                dmods,
                view_varinits(dv.name_map@.subrange(0, k as int)),
            ) is Ok,
        decreases dv.name_map@.len() - k,
    {
        let b = &dv.name_map[k];
        proof {
            assert(dv.name_map@.subrange(0, k + 1).drop_last() =~= dv.name_map@.subrange(
                0,
                k as int,
            ));
            assert(dv.name_map@.subrange(0, k + 1).last() == dv.name_map@[k as int]);
            assert(view_varinits(dv.name_map@.subrange(0, k + 1)) == view_varinits(
                dv.name_map@.subrange(0, k as int),
            ).push(crate::ast::view_varinit(dv.name_map@[k as int])));
            assert(view_varinits(dv.name_map@.subrange(0, k as int)).push(
                crate::ast::view_varinit(dv.name_map@[k as int]),
            ).drop_last() =~= view_varinits(dv.name_map@.subrange(0, k as int)));
        }
        match &b.init {
            None => {
            },
            Some(e) => {
                let rt = match e.get_type(scope) {
                    Err(er) => {
                        proof {
                            lemma_view_sub_full(dv.name_map@, k as int);
                            lemma_inits_err_mono(
                                t,
                                stk,
                                declared,
                                dmods,
                                full,
                                k + 1,
                            );
                        }
                        return Err(er);
                    },
                    Ok(i) => i,
                };
                proof {
                    lemma_tok_eq_base_view(dv.typeref.type_base.base, rt.base_type);
                }
                let ok = crate::token::token_eq(&dv.typeref.type_base.base, &rt.base_type) && ((
                dv.typeref.nested_def.len() == 0 && rt.nested_def.len() == 0) || (
                ends_compound_exec(&dv.typeref.nested_def) && ends_compound_exec(&rt.nested_def)));
                if !ok {
                    proof {
                        lemma_view_sub_full(dv.name_map@, k as int);
                        lemma_inits_err_mono(t, stk, declared, dmods, full, k + 1);
                    }
                    return Err(
                        CompileError::Type(
                            TypeError::Incompatible {
                                left: dv.typeref.type_base.base.clone(),
                                right: rt.base_type,
                            },
                        ),
                    );
                }
            },
        }
        k = k + 1;
    }
    proof {
        assert(dv.name_map@.subrange(0, dv.name_map@.len() as int) =~= dv.name_map@);
    }
    Ok(())
}

/// The views of binding prefixes are prefixes of the views.
proof fn lemma_view_sub_full(v: Seq<crate::ast::VarInit>, k: int)
    requires
        0 <= k < v.len(),
    ensures
        view_varinits(v).subrange(0, k + 1) =~= view_varinits(v.subrange(0, k + 1)),
    decreases v.len(),
{
    lemma_view_varinits_len(v);
    lemma_view_varinits_index(v, k);
    assert forall|i: int| 0 <= i <= k implies view_varinits(v)[i] == view_varinits(
        v.subrange(0, k + 1),
    )[i] by {
        lemma_view_varinits_len(v.subrange(0, k + 1));
        lemma_view_varinits_index(v, i);
        lemma_view_varinits_index(v.subrange(0, k + 1), i);
    }
}

/// The view of a binding list has the same length.
proof fn lemma_view_varinits_len(v: Seq<crate::ast::VarInit>)
    ensures
        view_varinits(v).len() == v.len(),
    decreases v.len(),
{
    if v.len() > 0 {
        lemma_view_varinits_len(v.drop_last());
    }
}

/// The view of a binding list is element-wise.
proof fn lemma_view_varinits_index(v: Seq<crate::ast::VarInit>, i: int)
    requires
        0 <= i < v.len(),
    ensures
        view_varinits(v.subrange(0, i + 1)).len() == i + 1,
        view_varinits(v)[i] == crate::ast::view_varinit(v[i]),
    decreases v.len(),
{
    lemma_view_varinits_len(v);
    lemma_view_varinits_len(v.subrange(0, i + 1));
    if i == v.len() - 1 {
        lemma_view_varinits_len(v.drop_last());
    } else {
        lemma_view_varinits_index(v.drop_last(), i);
        assert(v.drop_last()[i] == v[i]);
    }
}


// ---------------------------------------------------------------------------
// Statement walking: the scope replay, at the specification level.
// ---------------------------------------------------------------------------
/// The outcome of checking a statement: a diagnostic or success, plus the
/// scope stack and replay counters afterwards.
pub struct ChkRes {
    pub res: Result<(), CompileErrorV>,
    pub stk: Seq<usize>,
    pub ord: Seq<usize>,
}

/// Entering the next unvisited child scope, as `push_block` does.
pub open spec fn sp_push_block(t: DefsV, stk: Seq<usize>, ord: Seq<usize>) -> Option<
    (Seq<usize>, Seq<usize>),
> {
    if stk.len() > 0 && ord.len() > 0 && stk.last() < t.arena.len() && (ord.last() as int)
        < t.arena[stk.last() as int].scopes@.len() {
        Some(
            (
                stk.push(t.arena[stk.last() as int].scopes@[ord.last() as int]),
                ord.push(0usize),
            ),
        )
    } else {
        None
    }
}

/// Leaving the active scope, as `pop_block` does.
pub open spec fn sp_pop_block(stk: Seq<usize>, ord: Seq<usize>) -> Option<
    (Seq<usize>, Seq<usize>),
> {
    if stk.len() > 0 && ord.len() >= 2 && ord[ord.len() - 2] < usize::MAX {
        Some(
            (
                stk.drop_last(),
                ord.drop_last().drop_last().push(((ord[ord.len() - 2] + 1) as usize)),
            ),
        )
    } else {
        None
    }
}

/// The acceptance predicate for a statement, threading the replay state:
/// blocks re-enter their scope; control-flow forms check their condition
/// expressions and their nested statements in source order.
pub open spec fn spec_check_stmt(
    t: DefsV,
    stk: Seq<usize>,
    ord: Seq<usize>,
    s: StmtNodeV,
) -> ChkRes
    decreases s, 1int,
{
    match s {
        StmtNodeV::Block(b) => spec_check_block(t, stk, ord, b),
        StmtNodeV::If(n) => match spec_check_expr(t, stk, n.condition) {
            Err(e) => ChkRes { res: Err(e), stk, ord },
            Ok(_) => {
                let a = spec_check_stmt(t, stk, ord, *n.if_stmt);
                match a.res {
                    Err(_) => a,
                    Ok(_) => match n.else_stmt {
                        None => a,
                        Some(e) => spec_check_stmt(t, a.stk, a.ord, *e),
                    },
                }
            },
        },
        StmtNodeV::Expr(n) => match spec_check_expr(t, stk, n.expr) {
            Err(e) => ChkRes { res: Err(e), stk, ord },
            Ok(_) => ChkRes { res: Ok(()), stk, ord },
        },
        StmtNodeV::While(n) => match spec_check_expr(t, stk, n.condition) {
            Err(e) => ChkRes { res: Err(e), stk, ord },
            Ok(_) => spec_check_stmt(t, stk, ord, *n.stmts),
        },
        StmtNodeV::DoWhile(n) => match spec_check_expr(t, stk, n.condition) {
            Err(e) => ChkRes { res: Err(e), stk, ord },
            Ok(_) => spec_check_stmt(t, stk, ord, *n.stmts),
        },
        StmtNodeV::For(n) => match spec_check_expr(t, stk, n.initial_expr) {
            Err(e) => ChkRes { res: Err(e), stk, ord },
            Ok(_) => match spec_check_expr(t, stk, n.condition) {
                Err(e) => ChkRes { res: Err(e), stk, ord },
                Ok(_) => match spec_check_expr(t, stk, n.end_expr) {
                    Err(e) => ChkRes { res: Err(e), stk, ord },
                    Ok(_) => spec_check_stmt(t, stk, ord, *n.stmts),
                },
            },
        },
        StmtNodeV::Return(n) => match spec_check_expr(t, stk, n.value) {
            Err(e) => ChkRes { res: Err(e), stk, ord },
            Ok(_) => ChkRes { res: Ok(()), stk, ord },
        },
        StmtNodeV::Break => ChkRes { res: Ok(()), stk, ord },
        StmtNodeV::Continue => ChkRes { res: Ok(()), stk, ord },
    }
}

/// The acceptance predicate for a block: enter the next child scope, check
/// every local definition's initializers and every statement, leave.
pub open spec fn spec_check_block(
    t: DefsV,
    stk: Seq<usize>,
    ord: Seq<usize>,
    b: BlockNodeV,
) -> ChkRes
    decreases b, 0int,
{
    match sp_push_block(t, stk, ord) {
        None => ChkRes { res: Err(CompileErrorV::ScopeSync), stk, ord },
        Some(entered) => {
            let stk1 = entered.0;
            let ord1 = entered.1;
            match spec_check_defvars(t, stk1, b.defvars) {
                Err(e) => ChkRes { res: Err(e), stk: stk1, ord: ord1 },
                Ok(_) => {
                    let a = spec_check_stmts(t, stk1, ord1, b.stmts);
                    match a.res {
                        Err(_) => a,
                        Ok(_) => match sp_pop_block(a.stk, a.ord) {
                            None => ChkRes {
                                res: Err(CompileErrorV::ScopeSync),
                                stk: a.stk,
                                ord: a.ord,
                            },
                            Some(left) => ChkRes { res: Ok(()), stk: left.0, ord: left.1 },
                        },
                    }
                },
            }
        },
    }
}

/// Checks a statement list in order, stopping at the first diagnostic.
pub open spec fn spec_check_stmts(
    t: DefsV,
    stk: Seq<usize>,
    ord: Seq<usize>,
    v: Seq<StmtNodeV>,
) -> ChkRes
    decreases v, v.len() + 2,
{
    if v.len() == 0 {
        ChkRes { res: Ok(()), stk, ord }
    } else {
        let a = spec_check_stmt(t, stk, ord, v.first());
        match a.res {
            Err(_) => a,
            Ok(_) => spec_check_stmts(t, a.stk, a.ord, v.drop_first()),
        }
    }
}

/// Checks the initializers of a block's local definitions in order.
pub open spec fn spec_check_defvars(
    t: DefsV,
    stk: Seq<usize>,
    dvs: Seq<DefVarNodeV>,
) -> Result<(), CompileErrorV>
    decreases dvs.len(),
{
    if dvs.len() == 0 {
        Ok(())
    } else {
        match spec_check_defvars(t, stk, dvs.drop_last()) {
            Err(e) => Err(e),
            Ok(_) => spec_check_inits(
                t,
                stk,
                base_view(dvs.last().typeref.type_base.base),
                dvs.last().typeref.nested_def,
                dvs.last().name_map,
            ),
        }
    }
}

// ---------------------------------------------------------------------------
// Statement walking: the scope replay.
// ---------------------------------------------------------------------------

impl StmtNode {
    /// Checks the expressions of this statement, re-entering nested block
    /// scopes in arrival order; exactly the acceptance predicate
    /// `spec_check_stmt`, which also pins the replay state afterwards.
    pub fn check_expr_validity(&self, scope: &mut TopLevelScope) -> (r: Result<
        (),
        CompileError,
    >)
        ensures
            old(scope).same_defs(*final(scope)),
            ({
                let c = spec_check_stmt(
                    old(scope).defs_view(),
                    old(scope).scope_stack@,
                    old(scope).order_block@,
                    view_stmt(*self),
                );
                match r {
                    Ok(_) => c.res is Ok && final(scope).scope_stack@ == c.stk
                        && final(scope).order_block@ == c.ord,
                    Err(e) => c.res == Err::<(), CompileErrorV>(err_view(e)),
                }
            }),
        decreases *self, 1int,
    {
        let ghost t0 = old(scope).defs_view();
        match self {
            StmtNode::Block(b) => {
                let stepped = b.check_expr_validity(scope);
                match stepped {
                    Ok(_) => Ok(()),
                    Err(e) => Err(e),
                }
            },
            StmtNode::If(n) => {
                match n.condition.check_expr_validity(scope) {
                    Err(e) => {
                        return Err(e);
                    },
                    Ok(_) => {
                    },
                }
                match n.if_stmt.check_expr_validity(scope) {
                    Err(e) => {
                        return Err(e);
                    },
                    Ok(_) => {
                    },
                }
                match &n.else_stmt {
                    Some(e) => e.check_expr_validity(scope),
                    None => Ok(()),
                }
            },
            StmtNode::Expr(n) => n.expr.check_expr_validity(scope),
            StmtNode::While(n) => {
                match n.condition.check_expr_validity(scope) {
                    Err(e) => {
                        return Err(e);
                    },
                    Ok(_) => {
                    },
                }
                n.stmts.check_expr_validity(scope)
            },
            StmtNode::DoWhile(n) => {
                match n.condition.check_expr_validity(scope) {
                    Err(e) => {
                        return Err(e);
                    },
                    Ok(_) => {
                    },
                }
                n.stmts.check_expr_validity(scope)
            },
            StmtNode::For(n) => {
                match n.initial_expr.check_expr_validity(scope) {
                    Err(e) => {
                        return Err(e);
                    },
                    Ok(_) => {
                    },
                }
                match n.condition.check_expr_validity(scope) {
                    Err(e) => {
                        return Err(e);
                    },
                    Ok(_) => {
                    },
                }
                match n.end_expr.check_expr_validity(scope) {
                    Err(e) => {
                        return Err(e);
                    },
                    Ok(_) => {
                    },
                }
                n.stmts.check_expr_validity(scope)
            },
            StmtNode::Return(n) => {
                match n.value.check_expr_validity(scope) {
                    Err(e) => {
                        return Err(e);
                    },
                    Ok(_) => {
                    },
                }
                Ok(())
            },
            StmtNode::Break(_) => Ok(()),
            StmtNode::Continue(_) => Ok(()),
        }
    }
}

impl BlockNode {
    /// Enters this block's scope, checks the local definitions'
    /// initializers and the statements, and leaves the scope; exactly the
    /// acceptance predicate `spec_check_block`.
    #[verifier::spinoff_prover]
    #[verifier::loop_isolation(false)]
    pub fn check_expr_validity(&self, scope: &mut TopLevelScope) -> (r: Result<
        (),
        CompileError,
    >)
        ensures
            old(scope).same_defs(*final(scope)),
            ({
                let c = spec_check_block(
                    old(scope).defs_view(),
                    old(scope).scope_stack@,
                    old(scope).order_block@,
                    view_block(*self),
                );
                match r {
                    Ok(_) => c.res is Ok && final(scope).scope_stack@ == c.stk
                        && final(scope).order_block@ == c.ord,
                    Err(e) => c.res == Err::<(), CompileErrorV>(err_view(e)),
                }
            }),
        decreases *self, 0int,
    {
        let ghost t0 = old(scope).defs_view();
        match scope.push_block() {
            Err(e) => {
                proof {
                    assert(sp_push_block(
                        t0,
                        old(scope).scope_stack@,
                        old(scope).order_block@,
                    ) is None);
                }
                return Err(e);
            },
            Ok(_) => {
            },
        }
        let ghost stk1 = scope.scope_stack@;
        let ghost ord1 = scope.order_block@;
        proof {
            assert(sp_push_block(t0, old(scope).scope_stack@, old(scope).order_block@) == Some(
                (stk1, ord1),
            ));
        }
        let mut k: usize = 0;
        proof {
            assert(view_block(*self).defvars == view_defvars(self.defvars@));
            assert(view_block(*self).stmts == view_stmts(self.stmts@));
            assert(view_defvars(self.defvars@.subrange(0, 0)) =~= Seq::<DefVarNodeV>::empty());
            assert(self.defvars@.subrange(0, 0) =~= Seq::<DefVarNode>::empty());
            lemma_view_defvars_len(self.defvars@);
            lemma_view_stmts_len(self.stmts@);
        }
        while k < self.defvars.len()
            invariant
                k <= self.defvars@.len(),
                old(scope).same_defs(*scope),
                scope.scope_stack@ == stk1,
                scope.order_block@ == ord1,
                spec_check_defvars(t0, stk1, view_defvars(self.defvars@.subrange(0, k as int)))
                    is Ok,
            decreases self.defvars@.len() - k,
        {
            let dv = &self.defvars[k];
            proof {
                assert(self.defvars@.subrange(0, k + 1).drop_last() =~= self.defvars@.subrange(
                    0,
                    k as int,
                ));
                assert(self.defvars@.subrange(0, k + 1).last() == self.defvars@[k as int]);
                assert(view_defvars(self.defvars@.subrange(0, k + 1)) == view_defvars(
                    self.defvars@.subrange(0, k as int),
                ).push(crate::ast::view_defvar(self.defvars@[k as int])));
                assert(view_defvars(self.defvars@.subrange(0, k as int)).push(
                    crate::ast::view_defvar(self.defvars@[k as int]),
                ).drop_last() =~= view_defvars(self.defvars@.subrange(0, k as int)));
            }
            match check_init_type(dv, scope) {
                Err(e) => {
                    proof {
                        lemma_defvars_err_mono(t0, stk1, self.defvars@, k + 1);
                        lemma_view_defvars_sub(self.defvars@, k as int);
                    }
                    return Err(e);
                },
                Ok(_) => {
                },
            }
            k = k + 1;
        }
        proof {
            assert(self.defvars@.subrange(0, self.defvars@.len() as int) =~= self.defvars@);
        }
        let mut j: usize = 0;
        proof {
            assert(view_stmts(self.stmts@.subrange(0, 0)) =~= Seq::<StmtNodeV>::empty());
            assert(self.stmts@.subrange(0, 0) =~= Seq::<StmtNode>::empty());
            assert(view_stmts(self.stmts@).subrange(0, view_stmts(self.stmts@).len() as int)
                =~= view_stmts(self.stmts@));
        }
        while j < self.stmts.len()
            invariant
                j <= self.stmts@.len(),
                old(scope).same_defs(*scope),
                spec_check_stmts(t0, stk1, ord1, view_stmts(self.stmts@)) == spec_check_stmts(
                    t0,
                    scope.scope_stack@,
                    scope.order_block@,
                    view_stmts(self.stmts@).subrange(j as int, view_stmts(self.stmts@).len() as int),
                ),
            decreases self.stmts@.len() - j,
        {
            let st = &self.stmts[j];
            let ghost pre_stk = scope.scope_stack@;
            let ghost pre_ord = scope.order_block@;
            proof {
                lemma_view_stmts_index(self.stmts@, j as int);
                assert(view_stmts(self.stmts@).subrange(
                    j as int,
                    view_stmts(self.stmts@).len() as int,
                ).first() == view_stmt(self.stmts@[j as int]));
            }
            match st.check_expr_validity(scope) {
                Err(e) => {
                    return Err(e);
                },
                Ok(_) => {
                },
            }
            proof {
                assert(view_stmts(self.stmts@).subrange(
                    j as int,
                    view_stmts(self.stmts@).len() as int,
                ).drop_first() =~= view_stmts(self.stmts@).subrange(
                    j + 1,
                    view_stmts(self.stmts@).len() as int,
                ));
            }
            j = j + 1;
        }
        proof {
            assert(view_stmts(self.stmts@).subrange(
                self.stmts@.len() as int,
                view_stmts(self.stmts@).len() as int,
            ) =~= Seq::<StmtNodeV>::empty());
        }
        let ghost pre_stk = scope.scope_stack@;
        let ghost pre_ord = scope.order_block@;
        match scope.pop_block() {
            Err(e) => {
                proof {
                    assert(sp_pop_block(pre_stk, pre_ord) is None);
                }
                Err(e)
            },
            Ok(_) => {
                proof {
                    assert(sp_pop_block(pre_stk, pre_ord) == Some(
                        (scope.scope_stack@, scope.order_block@),
                    ));
                }
                Ok(())
            },
        }
    }
}

/// Failing initializers in a prefix of a block's definitions decide the
/// whole list.
proof fn lemma_defvars_err_mono(
    t: DefsV,
    stk: Seq<usize>,
    dvs: Seq<DefVarNode>,
    k: int,
)
    requires
        0 <= k <= dvs.len(),
        spec_check_defvars(t, stk, view_defvars(dvs.subrange(0, k))) is Err,
    ensures
        spec_check_defvars(t, stk, view_defvars(dvs)) == spec_check_defvars(
            t,
            stk,
            view_defvars(dvs.subrange(0, k)),
        ),
    decreases dvs.len() - k,
{
    if k == dvs.len() {
        assert(dvs.subrange(0, k) =~= dvs);
    } else {
        assert(dvs.subrange(0, k + 1).drop_last() =~= dvs.subrange(0, k));
        assert(dvs.subrange(0, k + 1).last() == dvs[k]);
        assert(view_defvars(dvs.subrange(0, k + 1)) == view_defvars(dvs.subrange(0, k)).push(
            crate::ast::view_defvar(dvs[k]),
        ));
        assert(view_defvars(dvs.subrange(0, k)).push(
            crate::ast::view_defvar(dvs[k]),
        ).drop_last() =~= view_defvars(dvs.subrange(0, k)));
        lemma_defvars_err_mono(t, stk, dvs, k + 1);
    }
}

/// The view of a definition-list prefix is the prefix of the view.
proof fn lemma_view_defvars_sub(dvs: Seq<DefVarNode>, k: int)
    requires
        0 <= k <= dvs.len(),
    ensures
        view_defvars(dvs.subrange(0, k)).len() == k,
    decreases k,
{
    if k > 0 {
        assert(dvs.subrange(0, k).drop_last() =~= dvs.subrange(0, k - 1));
        lemma_view_defvars_sub(dvs, k - 1);
    }
}




/// A statement that checks leaves the scope stack exactly where it found
/// it, and the counters at the same depth.
proof fn lemma_stmt_preserves_stack(t: DefsV, stk: Seq<usize>, ord: Seq<usize>, s: StmtNodeV)
    ensures
        ({
            let c = spec_check_stmt(t, stk, ord, s);
            c.res is Ok ==> c.stk == stk && c.ord.len() == ord.len()
        }),
    decreases s, 1int,
{
    match s {
        StmtNodeV::Block(b) => {
            lemma_block_preserves_stack(t, stk, ord, b);
        },
        StmtNodeV::If(n) => {
            lemma_stmt_preserves_stack(t, stk, ord, *n.if_stmt);
            let a = spec_check_stmt(t, stk, ord, *n.if_stmt);
            match n.else_stmt {
                Some(e) => {
                    lemma_stmt_preserves_stack(t, a.stk, a.ord, *e);
                },
                None => {
                },
            }
        },
        StmtNodeV::While(n) => {
            lemma_stmt_preserves_stack(t, stk, ord, *n.stmts);
        },
        StmtNodeV::DoWhile(n) => {
            lemma_stmt_preserves_stack(t, stk, ord, *n.stmts);
        },
        StmtNodeV::For(n) => {
            lemma_stmt_preserves_stack(t, stk, ord, *n.stmts);
        },
        _ => {
        },
    }
}

/// A block that checks restores the scope stack and the counter depth.
proof fn lemma_block_preserves_stack(t: DefsV, stk: Seq<usize>, ord: Seq<usize>, b: BlockNodeV)
    ensures
        ({
            let c = spec_check_block(t, stk, ord, b);
            c.res is Ok ==> c.stk == stk && c.ord.len() == ord.len()
        }),
    decreases b, 0int,
{
    match sp_push_block(t, stk, ord) {
        None => {
        },
        Some(entered) => {
            lemma_stmts_preserve_stack(t, entered.0, entered.1, b.stmts);
            assert(entered.0.drop_last() =~= stk);
            assert(entered.1.drop_last() =~= ord);
        },
    }
}

/// A statement list that checks restores the scope stack and the counter
/// depth.
proof fn lemma_stmts_preserve_stack(
    t: DefsV,
    stk: Seq<usize>,
    ord: Seq<usize>,
    v: Seq<StmtNodeV>,
)
    ensures
        ({
            let c = spec_check_stmts(t, stk, ord, v);
            c.res is Ok ==> c.stk == stk && c.ord.len() == ord.len()
        }),
    decreases v, v.len() + 2,
{
    if v.len() > 0 {
        lemma_stmt_preserves_stack(t, stk, ord, v.first());
        let a = spec_check_stmt(t, stk, ord, v.first());
        if a.res is Ok {
            lemma_stmts_preserve_stack(t, a.stk, a.ord, v.drop_first());
        }
    }
}

/// The acceptance predicate for one function: enter its registered root
/// scope with a fresh counter, check the body block, leave.
pub open spec fn spec_check_func(t: DefsV, stk: Seq<usize>, f: DefFuncNodeV) -> ChkRes {
    let ri = root_idx(t.roots, f.name);
    if ri < 0 {
        ChkRes { res: Err(CompileErrorV::Resolution(f.name)), stk, ord: seq![0usize] }
    } else {
        let c = spec_check_block(t, stk.push(t.roots[ri].1), seq![0usize], f.block);
        match c.res {
            Err(e) => ChkRes { res: Err(e), stk: c.stk, ord: c.ord },
            Ok(_) => ChkRes { res: Ok(()), stk: c.stk.drop_last(), ord: c.ord },
        }
    }
}

/// The acceptance predicate for the checking pass: every function
/// definition is checked in order; other definitions carry no statements.
pub open spec fn spec_check_funcs(
    t: DefsV,
    stk: Seq<usize>,
    ord: Seq<usize>,
    ds: Seq<DefNodeV>,
) -> ChkRes
    decreases ds.len(),
{
    if ds.len() == 0 {
        ChkRes { res: Ok(()), stk, ord }
    } else {
        match ds.first() {
            DefNodeV::Func(f) => {
                let a = spec_check_func(t, stk, f);
                match a.res {
                    Err(_) => a,
                    Ok(_) => spec_check_funcs(t, a.stk, a.ord, ds.drop_first()),
                }
            },
            _ => spec_check_funcs(t, stk, ord, ds.drop_first()),
        }
    }
}



impl crate::ast::DefFuncNode {
    /// Checks this function's body, with its registered root scope (and
    /// the replay counters) made active first; exactly the acceptance
    /// predicate `spec_check_func`.
    pub fn check_expr_validity(&self, scope: &mut TopLevelScope) -> (r: Result<
        (),
        CompileError,
    >)
        ensures
            old(scope).same_defs(*final(scope)),
            ({
                let c = spec_check_func(
                    old(scope).defs_view(),
                    old(scope).scope_stack@,
                    crate::ast::view_func(*self),
                );
                match r {
                    Ok(_) => c.res is Ok && final(scope).scope_stack@ == c.stk
                        && final(scope).order_block@ == c.ord,
                    Err(e) => c.res == Err::<(), CompileErrorV>(err_view(e)),
                }
            }),
            r is Ok ==> final(scope).scope_stack@ == old(scope).scope_stack@,
    {
        match scope.push_func(&self.name) {
            Err(e) => {
                return Err(e);
            },
            Ok(_) => {
            },
        }
        let ghost mid_stk = scope.scope_stack@;
        let ghost mid_ord = scope.order_block@;
        match self.block.check_expr_validity(scope) {
            Err(e) => {
                return Err(e);
            },
            Ok(_) => {
            },
        }
        proof {
            lemma_block_preserves_stack(
                old(scope).defs_view(),
                mid_stk,
                mid_ord,
                view_block(self.block),
            );
        }
        let _ = scope.scope_stack.pop();
        proof {
            assert(scope.scope_stack@ =~= old(scope).scope_stack@);
        }
        Ok(())
    }
}

/// The checking pass over a whole program: every function body is checked
/// against the symbol table the resolver built; exactly the acceptance
/// predicate `spec_check_funcs` over the function definitions.
#[verifier::loop_isolation(false)]
pub fn check_expr(ast: &ProgramNode, symboltable: &mut TopLevelScope) -> (r: Result<
    (),
    CompileError,
>)
    ensures
        old(symboltable).same_defs(*final(symboltable)),
        ({
            let c = spec_check_funcs(
                old(symboltable).defs_view(),
                old(symboltable).scope_stack@,
                old(symboltable).order_block@,
                view_defs(ast.defs.func_defs@),
            );
            match r {
                Ok(_) => c.res is Ok && final(symboltable).scope_stack@ == c.stk
                    && final(symboltable).order_block@ == c.ord,
                Err(e) => c.res == Err::<(), CompileErrorV>(err_view(e)),
            }
        }),
{
    let ghost t0 = old(symboltable).defs_view();
    let ghost fullv = view_defs(ast.defs.func_defs@);
    let mut k: usize = 0;
    proof {
        lemma_view_defs_len(ast.defs.func_defs@);
        assert(fullv.subrange(0, fullv.len() as int) =~= fullv);
    }
    while k < ast.defs.func_defs.len()
        invariant
            k <= ast.defs.func_defs@.len(),
            old(symboltable).same_defs(*symboltable),
            spec_check_funcs(t0, old(symboltable).scope_stack@, old(symboltable).order_block@, fullv)
                == spec_check_funcs(
                t0,
                symboltable.scope_stack@,
                symboltable.order_block@,
                fullv.subrange(k as int, fullv.len() as int),
            ),
        decreases ast.defs.func_defs@.len() - k,
    {
        let d = &ast.defs.func_defs[k];
        proof {
            lemma_view_defs_index(ast.defs.func_defs@, k as int);
            assert(fullv.subrange(k as int, fullv.len() as int).first() == view_def(
                ast.defs.func_defs@[k as int],
            ));
        }
        match d {
            DefNode::Func(f) => {
                match f.check_expr_validity(symboltable) {
                    Err(e) => {
                        return Err(e);
                    },
                    Ok(_) => {
                    },
                }
            },
            _ => {
            },
        }
        proof {
            assert(fullv.subrange(k as int, fullv.len() as int).drop_first() =~= fullv.subrange(
                k + 1,
                fullv.len() as int,
            ));
        }
        k = k + 1;
    }
    proof {
        assert(fullv.subrange(ast.defs.func_defs@.len() as int, fullv.len() as int)
            =~= Seq::<DefNodeV>::empty());
    }
    Ok(())
}

} // verus!
