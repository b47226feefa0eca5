//! The resolution pass: a single top-down walk over the syntax tree that
//! fills the symbol table.  Struct definitions and function signatures go
//! into the global maps; every function gets a registered root scope
//! holding its parameters; every block gets a child scope holding its local
//! definitions, mirroring source nesting in creation order.

use vstd::prelude::*;
use crate::ast::DefFuncNode;
use crate::ast::DefNode;
use crate::ast::DefStructNode;
use crate::ast::DefVarNode;
use crate::ast::ProgramNode;
use crate::ast::SlotNode;
use crate::ast::TopDefNode;
use crate::ast::TypeBase;
use crate::ast::TypeDef;
use crate::ast::TypeNode;
use crate::ast::TypeNodeV;
use crate::ast::BlockNodeV;
use crate::ast::ProgramNodeV;
use crate::ast::DefNodeV;
use crate::ast::DefStructNodeV;
use crate::ast::DefVarNodeV;
use crate::ast::SlotNodeV;
use crate::ast::StmtNodeV;
use crate::ast::VarInitV;
use crate::ast::view_block;
use crate::ast::view_defs;
use crate::ast::view_def;
use crate::ast::view_func;
use crate::ast::view_stmt;
use crate::ast::view_stmts;
use crate::ast::view_defvars;
use crate::ast::view_defvar;
use crate::ast::view_slots;
use crate::ast::view_struct;
use crate::ast::view_typeref;
use crate::ast_stmt::BlockNode;
use crate::ast_stmt::StmtNode;
use crate::symbol_table::FuncSig;
use crate::symbol_table::LocalScope;
use crate::symbol_table::TopLevelScope;
use crate::symbol_table::VarEntry;

verus! {

// ---------------------------------------------------------------------------
// Copying helpers (the table owns its data; the tree stays untouched).
// ---------------------------------------------------------------------------
/// Copies a type reference; the copy has the same view.
#[verifier::loop_isolation(false)]
pub fn clone_typeref(t: &TypeNode) -> (r: TypeNode)
    ensures
        view_typeref(r) == view_typeref(*t),
{
    let base = t.type_base.base.clone();
    let name: Option<String> = match &t.type_base.name {
        Some(s) => Some(s.clone()),
        None => None,
    };
    let mut nested: Vec<TypeDef> = Vec::new();
    let mut k: usize = 0;
    while k < t.nested_def.len()
        invariant
            k <= t.nested_def@.len(),
            nested@ =~= t.nested_def@.subrange(0, k as int),
        decreases t.nested_def@.len() - k,
    {
        nested.push(t.nested_def[k]);
        k = k + 1;
    }
    proof {
        assert(nested@ =~= t.nested_def@);
    }
    TypeNode { type_base: TypeBase { base, name }, nested_def: nested }
}

/// Copies a struct definition; the copy has the same view.
#[verifier::loop_isolation(false)]
pub fn clone_struct(d: &DefStructNode) -> (r: DefStructNode)
    ensures
        view_struct(r) == view_struct(*d),
{
    let mut member_list: Vec<SlotNode> = Vec::new();
    let mut k: usize = 0;
    while k < d.member_list.len()
        invariant
            k <= d.member_list@.len(),
            view_slots(member_list@) =~= view_slots(d.member_list@.subrange(0, k as int)),
        decreases d.member_list@.len() - k,
    {
        let m = &d.member_list[k];
        let copy = SlotNode { typeref: clone_typeref(&m.typeref), name: m.name.clone() };
        proof {
            crate::ast::lemma_view_slots_push(member_list@, copy);
            assert(d.member_list@.subrange(0, k + 1).drop_last() =~= d.member_list@.subrange(
                0,
                k as int,
            ));
            assert(d.member_list@.subrange(0, k + 1).last() == d.member_list@[k as int]);
        }
        member_list.push(copy);
        k = k + 1;
    }
    proof {
        assert(d.member_list@.subrange(0, d.member_list@.len() as int) =~= d.member_list@);
    }
    DefStructNode { name: d.name.clone(), member_list }
}

// ---------------------------------------------------------------------------
// What filling adds, at the specification level.
// ---------------------------------------------------------------------------
/// A binding list as (name, type view) pairs.
pub open spec fn entries_view(vm: Seq<VarEntry>) -> Seq<(Seq<char>, TypeNodeV)> {
    vm.map_values(|e: VarEntry| (e.name@, view_typeref(e.typeref)))
}

/// The (name, type view) pairs a variable definition binds, in order.
pub open spec fn defvar_entries(ty: TypeNodeV, bs: Seq<VarInitV>) -> Seq<(Seq<char>, TypeNodeV)> {
    bs.map_values(|b: VarInitV| (b.name, ty))
}

/// The (name, type view) pairs of a parameter list, in order.
pub open spec fn param_entries(ps: Seq<SlotNode>) -> Seq<(Seq<char>, TypeNodeV)> {
    ps.map_values(|s: SlotNode| (s.name@, view_typeref(s.typeref)))
}

// ---------------------------------------------------------------------------
// The resolution pass, at the specification level.
// ---------------------------------------------------------------------------
/// The model of one scope: its parent, its bindings as (name, type view)
/// pairs in declaration order, and its child scopes in creation order.
pub struct ScopeM {
    pub parent: Option<int>,
    pub vars: Seq<(Seq<char>, TypeNodeV)>,
    pub children: Seq<int>,
}

/// The model of a scope in the arena.
pub open spec fn scope_m(s: LocalScope) -> ScopeM {
    ScopeM {
        parent: match s.parent {
            Some(p) => Some(p as int),
            None => None,
        },
        vars: entries_view(s.var_map@),
        children: s.scopes@.map_values(|u: usize| u as int),
    }
}

/// The model of the whole arena.
pub open spec fn arena_m(a: Seq<LocalScope>) -> Seq<ScopeM> {
    a.map_values(|s: LocalScope| scope_m(s))
}

/// All the bindings a block's local definitions contribute, in order.
pub open spec fn defvars_entries(dvs: Seq<DefVarNodeV>) -> Seq<(Seq<char>, TypeNodeV)>
    decreases dvs.len(),
{
    if dvs.len() == 0 {
        Seq::empty()
    } else {
        defvars_entries(dvs.drop_last()) + defvar_entries(
            dvs.last().typeref,
            dvs.last().name_map,
        )
    }
}

/// The (name, type view) pairs of a parameter list, over slot views.
pub open spec fn param_entries_v(ps: Seq<SlotNodeV>) -> Seq<(Seq<char>, TypeNodeV)> {
    ps.map_values(|s: SlotNodeV| (s.name, s.typeref))
}

/// What filling a block does to the arena: append the block's scope (its
/// bindings are its local definitions' names), link it as the next child
/// of `top`, and fill the statements' nested blocks beneath it.
pub open spec fn sp_fill_block(ar: Seq<ScopeM>, top: int, b: BlockNodeV) -> Seq<ScopeM>
    decreases b, 0int,
{
    let fresh = ar.len() as int;
    let with_child = ar.push(
        ScopeM { parent: Some(top), vars: defvars_entries(b.defvars), children: Seq::empty() },
    );
    let linked = if 0 <= top < ar.len() {
        with_child.update(
            top,
            ScopeM { children: ar[top].children.push(fresh), ..ar[top] },
        )
    } else {
        with_child
    };
    sp_fill_stmts(linked, fresh, b.stmts)
}

/// What filling a statement list does to the arena, in source order.
pub open spec fn sp_fill_stmts(ar: Seq<ScopeM>, top: int, v: Seq<StmtNodeV>) -> Seq<ScopeM>
    decreases v, v.len() + 2,
{
    if v.len() == 0 {
        ar
    } else {
        sp_fill_stmts(sp_fill_stmt(ar, top, v.first()), top, v.drop_first())
    }
}

/// What filling one statement does to the arena: each nested block gets a
/// scope under `top`, in source order.
pub open spec fn sp_fill_stmt(ar: Seq<ScopeM>, top: int, s: StmtNodeV) -> Seq<ScopeM>
    decreases s, 1int,
{
    match s {
        StmtNodeV::Block(b) => sp_fill_block(ar, top, b),
        StmtNodeV::If(n) => {
            let a1 = sp_fill_stmt(ar, top, *n.if_stmt);
            match n.else_stmt {
                Some(e) => sp_fill_stmt(a1, top, *e),
                None => a1,
            }
        },
        StmtNodeV::While(n) => sp_fill_stmt(ar, top, *n.stmts),
        StmtNodeV::DoWhile(n) => sp_fill_stmt(ar, top, *n.stmts),
        StmtNodeV::For(n) => sp_fill_stmt(ar, top, *n.stmts),
        _ => ar,
    }
}

/// The model of a whole symbol table.
pub struct ResM {
    pub arena: Seq<ScopeM>,
    pub structs: Seq<DefStructNodeV>,
    pub funcs: Seq<(Seq<char>, TypeNodeV)>,
    pub roots: Seq<(Seq<char>, int)>,
}

/// The struct map as views.
pub open spec fn structs_view(v: Seq<DefStructNode>) -> Seq<DefStructNodeV> {
    v.map_values(|d: DefStructNode| view_struct(d))
}

/// The function map as (name, return type view) pairs.
pub open spec fn funcs_view(v: Seq<FuncSig>) -> Seq<(Seq<char>, TypeNodeV)> {
    v.map_values(|f: FuncSig| (f.name@, view_typeref(f.typeref)))
}

/// The registered roots as (name, index) pairs.
pub open spec fn roots_view(v: Seq<(String, usize)>) -> Seq<(Seq<char>, int)> {
    v.map_values(|p: (String, usize)| (p.0@, p.1 as int))
}

/// The model of an executable symbol table.
pub open spec fn res_m(t: TopLevelScope) -> ResM {
    ResM {
        arena: arena_m(t.arena@),
        structs: structs_view(t.global_define_map@),
        funcs: funcs_view(t.func_map@),
        roots: roots_view(t.scopes@),
    }
}

/// A fresh table's model: the empty global scope under "GLOBAL".
pub open spec fn sp_init() -> ResM {
    ResM {
        arena: seq![ScopeM { parent: None, vars: Seq::empty(), children: Seq::empty() }],
        structs: Seq::empty(),
        funcs: Seq::empty(),
        roots: seq![("GLOBAL"@, 0int)],
    }
}

/// What filling one top-level definition does: a struct definition joins
/// the struct map; a variable definition binds its names in the global
/// scope; a function definition registers its signature and a root scope
/// holding its parameters, then fills its body beneath the root.
pub open spec fn sp_fill_def(r: ResM, d: DefNodeV) -> ResM {
    match d {
        DefNodeV::Struct(sd) => ResM { structs: r.structs.push(sd), ..r },
        DefNodeV::Var(vd) => ResM {
            arena: if r.arena.len() > 0 {
                r.arena.update(
                    0,
                    ScopeM {
                        vars: r.arena[0].vars + defvar_entries(vd.typeref, vd.name_map),
                        ..r.arena[0]
                    },
                )
            } else {
                r.arena
            },
            ..r
        },
        DefNodeV::Func(fd) => {
            let root = r.arena.len() as int;
            ResM {
                arena: sp_fill_block(
                    r.arena.push(
                        ScopeM {
                            parent: None,
                            vars: param_entries_v(fd.params.params),
                            children: Seq::empty(),
                        },
                    ),
                    root,
                    fd.block,
                ),
                structs: r.structs,
                funcs: r.funcs.push((fd.name, fd.typeref)),
                roots: r.roots.push((fd.name, root)),
            }
        },
    }
}

/// Filling a definition list, in order.
pub open spec fn sp_fill_defs(r: ResM, ds: Seq<DefNodeV>) -> ResM
    decreases ds.len(),
{
    if ds.len() == 0 {
        r
    } else {
        sp_fill_defs(sp_fill_def(r, ds.first()), ds.drop_first())
    }
}

/// The whole resolution pass over a program's view: variable-level
/// definitions first, then the functions, exactly as the walk visits them.
pub open spec fn sp_resolve(p: ProgramNodeV) -> ResM {
    sp_fill_defs(sp_fill_defs(sp_init(), p.defs.var_defs), p.defs.func_defs)
}

/// Executable and view-level parameter entries coincide.
proof fn lemma_param_entries_views(ps: Seq<SlotNode>)
    ensures
        param_entries(ps) == param_entries_v(view_slots(ps)),
{
    crate::ast::lemma_view_slots_len(ps);
    assert forall|i: int| 0 <= i < ps.len() implies param_entries(ps)[i] == param_entries_v(
        view_slots(ps),
    )[i] by {
        crate::ast::lemma_view_slots_index(ps, i);
    }
    assert(param_entries(ps) =~= param_entries_v(view_slots(ps)));
}

impl DefStructNode {
    /// Registers this struct definition in the global struct map.
    #[verifier::loop_isolation(false)]
    pub fn fill_symbol(&self, scope: &mut TopLevelScope)
        ensures
            final(scope).global_define_map@.len() == old(scope).global_define_map@.len() + 1,
            final(scope).global_define_map@.drop_last() == old(scope).global_define_map@,
            view_struct(final(scope).global_define_map@.last()) == view_struct(*self),
            final(scope).func_map == old(scope).func_map,
            final(scope).scopes == old(scope).scopes,
            final(scope).arena == old(scope).arena,
            final(scope).scope_stack@ == old(scope).scope_stack@,
            final(scope).order_block@ == old(scope).order_block@,
    {
        let copy = clone_struct(self);
        scope.global_define_map.push(copy);
        proof {
            assert(scope.global_define_map@.drop_last() =~= old(scope).global_define_map@);
        }
    }
}

impl DefVarNode {
    /// Binds this definition's names, in order, in the active scope.
    #[verifier::loop_isolation(false)]
    pub fn fill_symbol(&self, scope: &mut TopLevelScope)
        requires
            old(scope).scope_stack@.len() > 0,
            old(scope).scope_stack@.last() < old(scope).arena@.len(),
        ensures
            ({
                let top = old(scope).scope_stack@.last() as int;
                &&& final(scope).global_define_map == old(scope).global_define_map
                &&& final(scope).func_map == old(scope).func_map
                &&& final(scope).scopes == old(scope).scopes
                &&& final(scope).scope_stack@ == old(scope).scope_stack@
                &&& final(scope).order_block@ == old(scope).order_block@
                &&& final(scope).arena@.len() == old(scope).arena@.len()
                &&& forall|i: int|
                    0 <= i < old(scope).arena@.len() && i != top ==> final(scope).arena@[i] == old(
                        scope,
                    ).arena@[i]
                &&& final(scope).arena@[top].parent == old(scope).arena@[top].parent
                &&& final(scope).arena@[top].scopes == old(scope).arena@[top].scopes
                &&& entries_view(final(scope).arena@[top].var_map@) == entries_view(
                    old(scope).arena@[top].var_map@,
                ) + defvar_entries(
                    view_typeref(self.typeref),
                    view_defvar(*self).name_map,
                )
            }),
    {
        let top = scope.scope_stack[scope.scope_stack.len() - 1];
        let mut k: usize = 0;
        proof {
            assert(view_defvar(*self).name_map == crate::ast::view_varinits(self.name_map@));
            assert(entries_view(old(scope).arena@[top as int].var_map@) + defvar_entries(
                view_typeref(self.typeref),
                crate::ast::view_varinits(self.name_map@.subrange(0, 0)),
            ) =~= entries_view(old(scope).arena@[top as int].var_map@));
            assert(self.name_map@.subrange(0, 0) =~= Seq::<crate::ast::VarInit>::empty());
        }
        while k < self.name_map.len()
            invariant
                k <= self.name_map@.len(),
                top == old(scope).scope_stack@.last(),
                top < scope.arena@.len(),
                scope.global_define_map == old(scope).global_define_map,
                scope.func_map == old(scope).func_map,
                scope.scopes == old(scope).scopes,
                scope.scope_stack@ == old(scope).scope_stack@,
                scope.order_block@ == old(scope).order_block@,
                scope.arena@.len() == old(scope).arena@.len(),
                forall|i: int|
                    0 <= i < old(scope).arena@.len() && i != top as int ==> scope.arena@[i]
                        == old(scope).arena@[i],
                scope.arena@[top as int].parent == old(scope).arena@[top as int].parent,
                scope.arena@[top as int].scopes == old(scope).arena@[top as int].scopes,
                entries_view(scope.arena@[top as int].var_map@) =~= entries_view(
                    old(scope).arena@[top as int].var_map@,
                ) + defvar_entries(
                    view_typeref(self.typeref),
                    crate::ast::view_varinits(self.name_map@.subrange(0, k as int)),
                ),
            decreases self.name_map@.len() - k,
        {
            let b = &self.name_map[k];
            let entry = VarEntry {
                name: b.name.clone(),
                typeref: clone_typeref(&self.typeref),
            };
            let ghost ev = (entry.name@, view_typeref(entry.typeref));
            let ghost prev_vm = scope.arena@[top as int].var_map@;
            let tmp = &mut scope.arena[top];
            tmp.var_map.push(entry);
            proof {
                assert(scope.arena@[top as int].var_map@ == prev_vm.push(
                    scope.arena@[top as int].var_map@.last(),
                ));
                assert(entries_view(scope.arena@[top as int].var_map@) =~= entries_view(
                    prev_vm,
                ).push(ev));
                assert(self.name_map@.subrange(0, k + 1).drop_last() =~= self.name_map@.subrange(
                    0,
                    k as int,
                ));
                assert(self.name_map@.subrange(0, k + 1).last() == self.name_map@[k as int]);
                assert(crate::ast::view_varinits(self.name_map@.subrange(0, k + 1))
                    == crate::ast::view_varinits(self.name_map@.subrange(0, k as int)).push(
                    crate::ast::view_varinit(self.name_map@[k as int]),
                ));
                assert(defvar_entries(
                    view_typeref(self.typeref),
                    crate::ast::view_varinits(self.name_map@.subrange(0, k + 1)),
                ) =~= defvar_entries(
                    view_typeref(self.typeref),
                    crate::ast::view_varinits(self.name_map@.subrange(0, k as int)),
                ).push(ev));
                assert(entries_view(scope.arena@[top as int].var_map@) =~= entries_view(
                    old(scope).arena@[top as int].var_map@,
                ) + defvar_entries(
                    view_typeref(self.typeref),
                    crate::ast::view_varinits(self.name_map@.subrange(0, k + 1)),
                ));
            }
            k = k + 1;
        }
        proof {
            assert(self.name_map@.subrange(0, self.name_map@.len() as int) =~= self.name_map@);
        }
    }
}

impl BlockNode {
    /// Creates this block's scope as the next child of the active scope,
    /// binds the block's local definitions in it, and recurses into the
    /// statements with the new scope active: exactly `sp_fill_block` on
    /// the arena's model.
    #[verifier::loop_isolation(false)]
    pub fn fill_symbol(&self, scope: &mut TopLevelScope)
        requires
            old(scope).scope_stack@.len() > 0,
            old(scope).scope_stack@.last() < old(scope).arena@.len(),
        ensures
            final(scope).global_define_map == old(scope).global_define_map,
            final(scope).func_map == old(scope).func_map,
            final(scope).scopes == old(scope).scopes,
            final(scope).scope_stack@ == old(scope).scope_stack@,
            final(scope).order_block@ == old(scope).order_block@,
            old(scope).arena@.len() < final(scope).arena@.len(),
            arena_m(final(scope).arena@) == sp_fill_block(
                arena_m(old(scope).arena@),
                old(scope).scope_stack@.last() as int,
                view_block(*self),
            ),
        decreases *self, 0int,
    {
        let top = scope.scope_stack[scope.scope_stack.len() - 1];
        let fresh = scope.arena.len();
        let ghost ar0 = arena_m(old(scope).arena@);
        let ghost topg = top as int;
        let mut child = LocalScope::new();
        child.parent = Some(top);
        scope.arena.push(child);
        let tmp = &mut scope.arena[top];
        tmp.scopes.push(fresh);
        scope.scope_stack.push(fresh);
        let ghost mid = *scope;
        proof {
            assert(entries_view(mid.arena@[fresh as int].var_map@) =~= Seq::<
                (Seq<char>, TypeNodeV),
            >::empty());
            assert(self.defvars@.subrange(0, 0) =~= Seq::<DefVarNode>::empty());
            assert(view_defvars(self.defvars@.subrange(0, 0)) =~= Seq::<
                crate::ast::DefVarNodeV,
            >::empty());
        }
        let mut k: usize = 0;
        while k < self.defvars.len()
            invariant
                k <= self.defvars@.len(),
                scope.scope_stack@.len() > 0,
                scope.scope_stack@.last() == fresh,
                fresh < scope.arena@.len(),
                scope.scope_stack@ == mid.scope_stack@,
                scope.order_block@ == mid.order_block@,
                scope.global_define_map == mid.global_define_map,
                scope.func_map == mid.func_map,
                scope.scopes == mid.scopes,
                scope.arena@.len() == mid.arena@.len(),
                forall|i: int|
                    0 <= i < mid.arena@.len() && i != fresh as int ==> scope.arena@[i]
                        == mid.arena@[i],
                scope.arena@[fresh as int].parent == mid.arena@[fresh as int].parent,
                scope.arena@[fresh as int].scopes == mid.arena@[fresh as int].scopes,
                entries_view(scope.arena@[fresh as int].var_map@) =~= defvars_entries(
                    view_defvars(self.defvars@.subrange(0, k as int)),
                ),
            decreases self.defvars@.len() - k,
        {
            let dv = &self.defvars[k];
            dv.fill_symbol(scope);
            proof {
                assert(self.defvars@.subrange(0, k + 1).drop_last() =~= self.defvars@.subrange(
                    0,
                    k as int,
                ));
                assert(self.defvars@.subrange(0, k + 1).last() == self.defvars@[k as int]);
                assert(view_defvars(self.defvars@.subrange(0, k + 1)) == view_defvars(
                    self.defvars@.subrange(0, k as int),
                ).push(view_defvar(self.defvars@[k as int])));
                assert(view_defvars(self.defvars@.subrange(0, k as int)).push(
                    view_defvar(self.defvars@[k as int]),
                ).drop_last() =~= view_defvars(self.defvars@.subrange(0, k as int)));
                assert(view_defvar(self.defvars@[k as int]).typeref == view_typeref(
                    self.defvars@[k as int].typeref,
                ));
                assert(view_defvar(self.defvars@[k as int]).name_map
                    == crate::ast::view_varinits(self.defvars@[k as int].name_map@));
                assert(entries_view(scope.arena@[fresh as int].var_map@) =~= defvars_entries(
                    view_defvars(self.defvars@.subrange(0, k + 1)),
                ));
            }
            k = k + 1;
        }
        proof {
            assert(self.defvars@.subrange(0, self.defvars@.len() as int) =~= self.defvars@);
        }
        let ghost a3 = *scope;
        let ghost with_child = ar0.push(
            ScopeM {
                parent: Some(topg),
                vars: defvars_entries(view_block(*self).defvars),
                children: Seq::empty(),
            },
        );
        let ghost linked = with_child.update(
            topg,
            ScopeM { children: ar0[topg].children.push(fresh as int), ..ar0[topg] },
        );
        proof {
            assert(view_block(*self).defvars == view_defvars(self.defvars@));
            assert(fresh as int == ar0.len());
            assert(a3.arena@[topg].scopes@ == old(scope).arena@[topg].scopes@.push(fresh));
            assert(scope_m(a3.arena@[topg]).children =~= ar0[topg].children.push(fresh as int));
            assert(scope_m(a3.arena@[fresh as int]).children =~= Seq::<int>::empty());
            assert forall|i: int| 0 <= i < linked.len() implies arena_m(a3.arena@)[i]
                == linked[i] by {
                if i == fresh as int {
                } else if i == topg {
                } else {
                    assert(a3.arena@[i] == mid.arena@[i]);
                    assert(mid.arena@[i] == old(scope).arena@[i]);
                }
            }
            assert(arena_m(a3.arena@) =~= linked);
        }
        let ghost target = sp_fill_stmts(linked, fresh as int, view_stmts(self.stmts@));
        let mut j: usize = 0;
        proof {
            crate::ast::lemma_view_stmts_len(self.stmts@);
            assert(view_stmts(self.stmts@).subrange(0, view_stmts(self.stmts@).len() as int)
                =~= view_stmts(self.stmts@));
        }
        while j < self.stmts.len()
            invariant
                j <= self.stmts@.len(),
                scope.scope_stack@.len() > 0,
                scope.scope_stack@.last() == fresh,
                fresh < scope.arena@.len(),
                scope.scope_stack@ == mid.scope_stack@,
                scope.order_block@ == mid.order_block@,
                scope.global_define_map == mid.global_define_map,
                scope.func_map == mid.func_map,
                scope.scopes == mid.scopes,
                sp_fill_stmts(
                    arena_m(scope.arena@),
                    fresh as int,
                    view_stmts(self.stmts@).subrange(
                        j as int,
                        view_stmts(self.stmts@).len() as int,
                    ),
                ) == target,
            decreases self.stmts@.len() - j,
        {
            let st = &self.stmts[j];
            let ghost pre = arena_m(scope.arena@);
            proof {
                crate::ast::lemma_view_stmts_index(self.stmts@, j as int);
                assert(view_stmts(self.stmts@).subrange(
                    j as int,
                    view_stmts(self.stmts@).len() as int,
                ).first() == view_stmt(self.stmts@[j as int]));
            }
            st.fill_symbol(scope);
            proof {
                assert(arena_m(scope.arena@) == sp_fill_stmt(
                    pre,
                    fresh as int,
                    view_stmt(self.stmts@[j as int]),
                ));
                assert(view_stmts(self.stmts@).subrange(
                    j as int,
                    view_stmts(self.stmts@).len() as int,
                ).drop_first() =~= view_stmts(self.stmts@).subrange(
                    j + 1,
                    view_stmts(self.stmts@).len() as int,
                ));
            }
            j = j + 1;
        }
        proof {
            assert(view_stmts(self.stmts@).subrange(
                self.stmts@.len() as int,
                view_stmts(self.stmts@).len() as int,
            ) =~= Seq::<crate::ast::StmtNodeV>::empty());
            assert(arena_m(scope.arena@) == target);
            assert(view_block(*self).stmts == view_stmts(self.stmts@));
        }
        let _ = scope.scope_stack.pop();
        proof {
            assert(scope.scope_stack@ =~= old(scope).scope_stack@);
        }
    }
}

impl StmtNode {
    /// Creates the scopes this statement's nested blocks need, in source
    /// order, under the active scope: exactly `sp_fill_stmt` on the
    /// arena's model.
    pub fn fill_symbol(&self, scope: &mut TopLevelScope)
        requires
            old(scope).scope_stack@.len() > 0,
            old(scope).scope_stack@.last() < old(scope).arena@.len(),
        ensures
            final(scope).global_define_map == old(scope).global_define_map,
            final(scope).func_map == old(scope).func_map,
            final(scope).scopes == old(scope).scopes,
            final(scope).scope_stack@ == old(scope).scope_stack@,
            final(scope).order_block@ == old(scope).order_block@,
            old(scope).arena@.len() <= final(scope).arena@.len(),
            arena_m(final(scope).arena@) == sp_fill_stmt(
                arena_m(old(scope).arena@),
                old(scope).scope_stack@.last() as int,
                view_stmt(*self),
            ),
        decreases *self, 1int,
    {
        let ghost top = old(scope).scope_stack@.last() as int;
        match self {
            StmtNode::Block(b) => {
                b.fill_symbol(scope);
            },
            StmtNode::If(n) => {
                let ghost ar0 = arena_m(scope.arena@);
                n.if_stmt.fill_symbol(scope);
                let ghost ar1 = arena_m(scope.arena@);
                proof {
                    assert(ar1 == sp_fill_stmt(ar0, top, view_stmt(*n.if_stmt)));
                }
                match &n.else_stmt {
                    Some(e) => {
                        e.fill_symbol(scope);
                        proof {
                            assert(arena_m(scope.arena@) == sp_fill_stmt(
                                ar1,
                                top,
                                view_stmt(**e),
                            ));
                        }
                    },
                    None => {
                    },
                }
            },
            StmtNode::While(n) => {
                n.stmts.fill_symbol(scope);
            },
            StmtNode::DoWhile(n) => {
                n.stmts.fill_symbol(scope);
            },
            StmtNode::For(n) => {
                n.stmts.fill_symbol(scope);
            },
            StmtNode::Expr(_) => {
            },
            StmtNode::Return(_) => {
            },
            StmtNode::Break(_) => {
            },
            StmtNode::Continue(_) => {
            },
        }
    }
}

impl DefFuncNode {
    /// Registers this function's signature, creates its root scope holding
    /// the parameters, registers the root under the function's name, and
    /// fills the body with the root active — exactly the function case of
    /// `sp_fill_def`.
    #[verifier::loop_isolation(false)]
    pub fn fill_symbol(&self, scope: &mut TopLevelScope)
        requires
            old(scope).scope_stack@.len() > 0,
        ensures
            final(scope).scope_stack@ == old(scope).scope_stack@,
            final(scope).order_block@ == old(scope).order_block@,
            final(scope).global_define_map == old(scope).global_define_map,
            funcs_view(final(scope).func_map@) == funcs_view(old(scope).func_map@).push(
                (self.name@, view_typeref(self.typeref)),
            ),
            roots_view(final(scope).scopes@) == roots_view(old(scope).scopes@).push(
                (self.name@, old(scope).arena@.len() as int),
            ),
            final(scope).scopes@.len() == old(scope).scopes@.len() + 1,
            final(scope).scopes@.drop_last() == old(scope).scopes@,
            old(scope).arena@.len() < final(scope).arena@.len(),
            arena_m(final(scope).arena@) == sp_fill_block(
                arena_m(old(scope).arena@).push(
                    ScopeM {
                        parent: None,
                        vars: param_entries_v(view_func(*self).params.params),
                        children: Seq::empty(),
                    },
                ),
                old(scope).arena@.len() as int,
                view_func(*self).block,
            ),
    {
        let sig = FuncSig { name: self.name.clone(), typeref: clone_typeref(&self.typeref) };
        scope.func_map.push(sig);
        proof {
            assert(funcs_view(scope.func_map@) =~= funcs_view(old(scope).func_map@).push(
                (self.name@, view_typeref(self.typeref)),
            ));
        }
        let root = scope.arena.len();
        let mut local = LocalScope::new();
        let mut k: usize = 0;
        while k < self.params.params.len()
            invariant
                k <= self.params.params@.len(),
                local.parent is None,
                local.scopes@.len() == 0,
                entries_view(local.var_map@) =~= param_entries(
                    self.params.params@.subrange(0, k as int),
                ),
            decreases self.params.params@.len() - k,
        {
            let p = &self.params.params[k];
            let entry = VarEntry { name: p.name.clone(), typeref: clone_typeref(&p.typeref) };
            let ghost ev = (entry.name@, view_typeref(entry.typeref));
            let ghost prev_vm = local.var_map@;
            local.var_map.push(entry);
            proof {
                assert(entries_view(local.var_map@) =~= entries_view(prev_vm).push(ev));
                assert(self.params.params@.subrange(0, k + 1).drop_last()
                    =~= self.params.params@.subrange(0, k as int));
                assert(self.params.params@.subrange(0, k + 1).last()
                    == self.params.params@[k as int]);
                assert(param_entries(self.params.params@.subrange(0, k + 1)) =~= param_entries(
                    self.params.params@.subrange(0, k as int),
                ).push(ev));
                assert(entries_view(local.var_map@) =~= param_entries(
                    self.params.params@.subrange(0, k + 1),
                ));
            }
            k = k + 1;
        }
        proof {
            assert(self.params.params@.subrange(0, self.params.params@.len() as int)
                =~= self.params.params@);
            lemma_param_entries_views(self.params.params@);
        }
        scope.arena.push(local);
        proof {
            assert(view_func(*self).params.params == view_slots(self.params.params@));
            assert(scope_m(scope.arena@.last()).children =~= Seq::<int>::empty());
            assert(arena_m(scope.arena@) =~= arena_m(old(scope).arena@).push(
                ScopeM {
                    parent: None,
                    vars: param_entries_v(view_func(*self).params.params),
                    children: Seq::empty(),
                },
            ));
        }
        scope.scopes.push((self.name.clone(), root));
        proof {
            assert(roots_view(scope.scopes@) =~= roots_view(old(scope).scopes@).push(
                (self.name@, old(scope).arena@.len() as int),
            ));
        }
        scope.scope_stack.push(root);
        let ghost mid = *scope;
        self.block.fill_symbol(scope);
        proof {
            assert(view_func(*self).block == view_block(self.block));
        }
        let _ = scope.scope_stack.pop();
        proof {
            assert(scope.scope_stack@ =~= old(scope).scope_stack@);
            assert(scope.scopes@.drop_last() =~= old(scope).scopes@);
        }
    }
}

/// Builds the symbol table for a whole compilation unit: structs and
/// global variables first, then the functions.  The result is exactly the
/// table `sp_fill_defs` builds from the definitions' views.
#[verifier::loop_isolation(false)]
pub fn get_symboltable(node: &TopDefNode) -> (r: TopLevelScope)
    ensures
        r.scope_stack@ == seq![0usize],
        r.order_block@.len() == 0,
        r.scopes@.len() >= 1,
        r.scopes@[0].1 == 0,
        0 < r.arena@.len(),
        res_m(r) == sp_fill_defs(
            sp_fill_defs(sp_init(), view_defs(node.var_defs@)),
            view_defs(node.func_defs@),
        ),
{
    let mut scope = TopLevelScope::new();
    proof {
        assert(entries_view(scope.arena@[0].var_map@) =~= Seq::<(Seq<char>, TypeNodeV)>::empty());
        assert(scope.arena@[0].scopes@.map_values(|u: usize| u as int) =~= Seq::<int>::empty());
        assert(scope_m(scope.arena@[0]) == sp_init().arena[0]);
        assert(arena_m(scope.arena@) =~= sp_init().arena);
        assert(structs_view(scope.global_define_map@) =~= sp_init().structs);
        assert(funcs_view(scope.func_map@) =~= sp_init().funcs);
        assert(roots_view(scope.scopes@)[0] == ("GLOBAL"@, 0int));
        assert(roots_view(scope.scopes@) =~= sp_init().roots);
        assert(res_m(scope) == sp_init());
        crate::ast::lemma_view_defs_len(node.var_defs@);
        crate::ast::lemma_view_defs_len(node.func_defs@);
        assert(view_defs(node.var_defs@).subrange(0, view_defs(node.var_defs@).len() as int)
            =~= view_defs(node.var_defs@));
    }
    let ghost target1 = sp_fill_defs(sp_init(), view_defs(node.var_defs@));
    let mut k: usize = 0;
    while k < node.var_defs.len()
        invariant
            k <= node.var_defs@.len(),
            scope.scope_stack@ == seq![0usize],
            scope.order_block@.len() == 0,
            scope.scopes@.len() >= 1,
            scope.scopes@[0].1 == 0,
            0 < scope.arena@.len(),
            sp_fill_defs(
                res_m(scope),
                view_defs(node.var_defs@).subrange(
                    k as int,
                    view_defs(node.var_defs@).len() as int,
                ),
            ) == target1,
        decreases node.var_defs@.len() - k,
    {
        let d = &node.var_defs[k];
        let ghost pre = scope;
        proof {
            crate::ast::lemma_view_defs_index(node.var_defs@, k as int);
            assert(view_defs(node.var_defs@).subrange(
                k as int,
                view_defs(node.var_defs@).len() as int,
            ).first() == view_def(node.var_defs@[k as int]));
        }
        fill_one_def(d, &mut scope);
        proof {
            assert(res_m(scope) == sp_fill_def(res_m(pre), view_def(node.var_defs@[k as int])));
            assert(view_defs(node.var_defs@).subrange(
                k as int,
                view_defs(node.var_defs@).len() as int,
            ).drop_first() =~= view_defs(node.var_defs@).subrange(
                k + 1,
                view_defs(node.var_defs@).len() as int,
            ));
        }
        k = k + 1;
    }
    proof {
        assert(view_defs(node.var_defs@).subrange(
            node.var_defs@.len() as int,
            view_defs(node.var_defs@).len() as int,
        ) =~= Seq::<crate::ast::DefNodeV>::empty());
        assert(res_m(scope) == target1);
        assert(view_defs(node.func_defs@).subrange(0, view_defs(node.func_defs@).len() as int)
            =~= view_defs(node.func_defs@));
    }
    let ghost target2 = sp_fill_defs(target1, view_defs(node.func_defs@));
    let mut j: usize = 0;
    while j < node.func_defs.len()
        invariant
            j <= node.func_defs@.len(),
            scope.scope_stack@ == seq![0usize],
            scope.order_block@.len() == 0,
            scope.scopes@.len() >= 1,
            scope.scopes@[0].1 == 0,
            0 < scope.arena@.len(),
            sp_fill_defs(
                res_m(scope),
                view_defs(node.func_defs@).subrange(
                    j as int,
                    view_defs(node.func_defs@).len() as int,
                ),
            ) == target2,
        decreases node.func_defs@.len() - j,
    {
        let d = &node.func_defs[j];
        let ghost pre = scope;
        proof {
            crate::ast::lemma_view_defs_index(node.func_defs@, j as int);
            assert(view_defs(node.func_defs@).subrange(
                j as int,
                view_defs(node.func_defs@).len() as int,
            ).first() == view_def(node.func_defs@[j as int]));
        }
        fill_one_def(d, &mut scope);
        proof {
            assert(res_m(scope) == sp_fill_def(res_m(pre), view_def(node.func_defs@[j as int])));
            assert(view_defs(node.func_defs@).subrange(
                j as int,
                view_defs(node.func_defs@).len() as int,
            ).drop_first() =~= view_defs(node.func_defs@).subrange(
                j + 1,
                view_defs(node.func_defs@).len() as int,
            ));
        }
        j = j + 1;
    }
    proof {
        assert(view_defs(node.func_defs@).subrange(
            node.func_defs@.len() as int,
            view_defs(node.func_defs@).len() as int,
        ) =~= Seq::<crate::ast::DefNodeV>::empty());
    }
    scope
}

/// Fills one top-level definition into the table: exactly `sp_fill_def`
/// on the table's model.
#[verifier::loop_isolation(false)]
pub fn fill_one_def(d: &DefNode, scope: &mut TopLevelScope)
    requires
        old(scope).scope_stack@ == seq![0usize],
        0 < old(scope).arena@.len(),
        old(scope).scopes@.len() >= 1,
    ensures
        final(scope).scope_stack@ == old(scope).scope_stack@,
        final(scope).order_block@ == old(scope).order_block@,
        final(scope).scopes@.len() >= old(scope).scopes@.len(),
        final(scope).scopes@[0] == old(scope).scopes@[0],
        old(scope).arena@.len() <= final(scope).arena@.len(),
        res_m(*final(scope)) == sp_fill_def(res_m(*old(scope)), view_def(*d)),
{
    match d {
        DefNode::Struct(s) => {
            s.fill_symbol(scope);
            proof {
                assert(structs_view(scope.global_define_map@) =~= structs_view(
                    old(scope).global_define_map@,
                ).push(view_struct(*s)));
                assert(res_m(*scope) == sp_fill_def(res_m(*old(scope)), view_def(*d)));
            }
        },
        DefNode::Var(v) => {
            proof {
                assert(old(scope).scope_stack@.last() == 0);
            }
            v.fill_symbol(scope);
            proof {
                let ghost ar0 = arena_m(old(scope).arena@);
                let ghost vd = view_defvar(*v);
                assert(view_defvar(*v).typeref == view_typeref(v.typeref));
                assert forall|i: int| 0 <= i < ar0.len() implies arena_m(scope.arena@)[i]
                    == ar0.update(
                    0,
                    ScopeM { vars: ar0[0].vars + defvar_entries(vd.typeref, vd.name_map), ..ar0[0] },
                )[i] by {
                    if i != 0 {
                        assert(scope.arena@[i] == old(scope).arena@[i]);
                    }
                }
                assert(arena_m(scope.arena@) =~= ar0.update(
                    0,
                    ScopeM { vars: ar0[0].vars + defvar_entries(vd.typeref, vd.name_map), ..ar0[0] },
                ));
                assert(res_m(*scope) == sp_fill_def(res_m(*old(scope)), view_def(*d)));
            }
        },
        DefNode::Func(f) => {
            f.fill_symbol(scope);
            proof {
                assert(res_m(*scope) == sp_fill_def(res_m(*old(scope)), view_def(*d)));
            }
        },
    }
}

/// The resolution pass over a parsed program: the returned symbol table
/// is exactly the table `sp_resolve` builds from the program's view — the
/// struct map holds the struct definitions in order, the function map the
/// signatures in order, and the arena a scope tree mirroring the source's
/// block nesting, each scope holding its own bindings.
pub fn local_resolver(ast: &ProgramNode) -> (r: TopLevelScope)
    ensures
        r.scope_stack@ == seq![0usize],
        r.order_block@.len() == 0,
        r.scopes@.len() >= 1,
        r.scopes@[0].1 == 0,
        0 < r.arena@.len(),
        res_m(r) == sp_resolve(crate::ast::view_program(*ast)),
{
    let r = get_symboltable(&ast.defs);
    proof {
        assert(crate::ast::view_program(*ast).defs.var_defs == view_defs(ast.defs.var_defs@));
        assert(crate::ast::view_program(*ast).defs.func_defs == view_defs(
            ast.defs.func_defs@,
        ));
    }
    r
}

} // verus!
