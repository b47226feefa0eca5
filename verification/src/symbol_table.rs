//! The symbol table: a global struct map and function map, plus an arena of
//! lexical scopes whose tree mirrors source block nesting.
//!
//! The checker re-enters the tree in source order through `push_func` /
//! `push_block` / `pop_block`, and `get_type` resolves a name through the
//! active scope stack, innermost scope first, latest definition first —
//! exactly the lexical-shadowing rule `spec_lookup` states.

use vstd::prelude::*;
use crate::ast::DefStructNode;
use crate::ast::TypeDef;
use crate::ast::TypeNode;
use crate::error::CompileError;
use crate::error::ResolutionError;
use crate::token::Token;

verus! {

/// One name bound in a scope, with its declared type.
#[derive(Debug)]
pub struct VarEntry {
    pub name: String,
    pub typeref: TypeNode,
}

/// One lexical scope: its own bindings and its child scopes, as indices
/// into the table's arena.
#[derive(Debug)]
pub struct LocalScope {
    pub parent: Option<usize>,
    pub var_map: Vec<VarEntry>,
    pub scopes: Vec<usize>,
}

impl LocalScope {
    pub fn new() -> (r: LocalScope)
        ensures
            r.parent is None,
            r.var_map@.len() == 0,
            r.scopes@.len() == 0,
    {
        LocalScope { parent: None, var_map: Vec::new(), scopes: Vec::new() }
    }
}

/// One function signature: its name and return type.
#[derive(Debug)]
pub struct FuncSig {
    pub name: String,
    pub typeref: TypeNode,
}

/// The resolved type of a name, handed out by `get_type`.
#[derive(Debug)]
pub struct TypeInfo {
    pub name: String,
    /// Index of the struct definition in the global struct map, when the
    /// base type is a struct.
    pub origin_struct: Option<usize>,
    /// The (scope, binding) indices of the definition the name resolved to.
    pub origin_base: Option<(usize, usize)>,
    pub base_type: Token,
    pub nested_def: Vec<TypeDef>,
}

/// The symbol table.
#[derive(Debug)]
pub struct TopLevelScope {
    /// All struct definitions, in definition order.
    pub global_define_map: Vec<DefStructNode>,
    /// All function signatures, in definition order.
    pub func_map: Vec<FuncSig>,
    /// Registered scope roots: the global scope and one root per function.
    pub scopes: Vec<(String, usize)>,
    /// The scope arena; index 0 is the global scope.
    pub arena: Vec<LocalScope>,
    /// The path from the global scope to the active scope.
    pub scope_stack: Vec<usize>,
    /// Per-depth next-unvisited-child counters for the checker's replay.
    pub order_block: Vec<usize>,
}

// ---------------------------------------------------------------------------
// Lookup, at the specification level.
// ---------------------------------------------------------------------------
/// The index of the latest binding of `name` in a binding list, or -1.
pub open spec fn last_idx(vm: Seq<VarEntry>, name: Seq<char>) -> int
    decreases vm.len(),
{
    if vm.len() == 0 {
        -1
    } else if vm.last().name@ == name {
        vm.len() - 1
    } else {
        last_idx(vm.drop_last(), name)
    }
}

/// A scope stack as mathematical integers.
pub open spec fn stk_ints(stk: Seq<usize>) -> Seq<int> {
    stk.map_values(|u: usize| u as int)
}

/// Resolving a name through a scope stack: the innermost scope wins, and
/// within a scope the latest binding wins; outer scopes are consulted only
/// when every inner scope lacks the name.  This is the lexical-shadowing
/// rule.
pub open spec fn spec_lookup(arena: Seq<LocalScope>, stack: Seq<int>, name: Seq<char>) -> Option<
    (int, int),
>
    decreases stack.len(),
{
    if stack.len() == 0 {
        None
    } else {
        let si = stack.last();
        if 0 <= si < arena.len() && last_idx(arena[si].var_map@, name) >= 0 {
            Some((si, last_idx(arena[si].var_map@, name)))
        } else {
            spec_lookup(arena, stack.drop_last(), name)
        }
    }
}

/// The index of the latest struct definition named `name`, or -1.
pub open spec fn struct_idx(defs: Seq<DefStructNode>, name: Seq<char>) -> int
    decreases defs.len(),
{
    if defs.len() == 0 {
        -1
    } else if defs.last().name@ == name {
        defs.len() - 1
    } else {
        struct_idx(defs.drop_last(), name)
    }
}

/// A struct lookup result is always below the table's length.
pub proof fn lemma_struct_idx_lt(defs: Seq<DefStructNode>, name: Seq<char>)
    ensures
        struct_idx(defs, name) < defs.len(),
    decreases defs.len(),
{
    if defs.len() > 0 && !(defs.last().name@ == name) {
        lemma_struct_idx_lt(defs.drop_last(), name);
    }
}

/// The index of the latest function signature named `name`, or -1.
pub open spec fn func_idx(defs: Seq<FuncSig>, name: Seq<char>) -> int
    decreases defs.len(),
{
    if defs.len() == 0 {
        -1
    } else if defs.last().name@ == name {
        defs.len() - 1
    } else {
        func_idx(defs.drop_last(), name)
    }
}

/// The index registered for a scope-root name, or -1.
pub open spec fn root_idx(rs: Seq<(String, usize)>, name: Seq<char>) -> int
    decreases rs.len(),
{
    if rs.len() == 0 {
        -1
    } else if rs.last().0@ == name {
        rs.len() - 1
    } else {
        root_idx(rs.drop_last(), name)
    }
}

/// What `get_type` yields for a resolved binding: the binding's declared
/// type, together with the struct definition it names when its base is a
/// struct.
pub open spec fn spec_type_info(t: TopLevelScope, si: int, vi: int, r: TypeInfo) -> bool {
    let entry = t.arena@[si].var_map@[vi];
    &&& r.name@ == entry.name@
    &&& r.base_type == entry.typeref.type_base.base
    &&& r.nested_def@ == entry.typeref.nested_def@
    &&& r.origin_base == Some((si as usize, vi as usize))
    &&& if entry.typeref.type_base.base is Struct {
        match entry.typeref.type_base.name {
            Some(sn) => r.origin_struct matches Some(ix) && ix < t.global_define_map@.len()
                && ix as int == struct_idx(t.global_define_map@, sn@),
            None => false,
        }
    } else {
        r.origin_struct is None
    }
}

impl TopLevelScope {
    /// Everything except the traversal state (stack and counters) is
    /// unchanged.
    pub open spec fn same_defs(self, other: TopLevelScope) -> bool {
        &&& self.global_define_map == other.global_define_map
        &&& self.func_map == other.func_map
        &&& self.scopes == other.scopes
        &&& self.arena == other.arena
    }

    /// A fresh table: one empty global scope, registered under "GLOBAL" and
    /// active on the stack.
    pub fn new() -> (r: TopLevelScope)
        ensures
            r.global_define_map@.len() == 0,
            r.func_map@.len() == 0,
            r.arena@.len() == 1,
            r.arena@[0].var_map@.len() == 0,
            r.arena@[0].scopes@.len() == 0,
            r.arena@[0].parent is None,
            r.scopes@.len() == 1,
            r.scopes@[0].0@ == "GLOBAL"@,
            r.scopes@[0].1 == 0,
            r.scope_stack@ == seq![0usize],
            r.order_block@.len() == 0,
    {
        let mut scope = TopLevelScope {
            global_define_map: Vec::new(),
            func_map: Vec::new(),
            scopes: Vec::new(),
            arena: Vec::new(),
            scope_stack: Vec::new(),
            order_block: Vec::new(),
        };
        scope.arena.push(LocalScope::new());
        scope.scopes.push((String::from_str("GLOBAL"), 0));
        scope.scope_stack.push(0);
        scope
    }

    /// Enters the registered root scope of function `name`, resetting the
    /// replay counters.
    pub fn push_func(&mut self, name: &String) -> (r: Result<(), CompileError>)
        ensures
            old(self).same_defs(*final(self)),
            ({
                let ri = root_idx(old(self).scopes@, name@);
                match r {
                    Ok(_) => ri >= 0 && final(self).scope_stack@ == old(self).scope_stack@.push(
                        old(self).scopes@[ri].1,
                    ) && final(self).order_block@ == seq![0usize],
                    Err(e) => ri < 0 && e == CompileError::Resolution(
                        ResolutionError { name: *name },
                    ) && final(self).scope_stack == old(self).scope_stack
                        && final(self).order_block == old(self).order_block,
                }
            }),
    {
        let ghost rs = self.scopes@;
        let mut i: usize = self.scopes.len();
        proof {
            assert(rs.subrange(0, rs.len() as int) =~= rs);
        }
        loop
            invariant
                i <= rs.len(),
                *self == *old(self),
                rs == self.scopes@,
                root_idx(rs, name@) == root_idx(rs.subrange(0, i as int), name@),
            decreases i,
        {
            if i == 0 {
                proof {
                    assert(rs.subrange(0, 0) =~= Seq::<(String, usize)>::empty());
                }
                return Err(
                    CompileError::Resolution(ResolutionError { name: name.clone() }),
                );
            }
            i = i - 1;
            if self.scopes[i].0 == *name {
                proof {
                    assert(rs.subrange(0, i + 1).last() == rs[i as int]);
                    assert(root_idx(rs.subrange(0, i + 1), name@) == i);
                }
                let target = self.scopes[i].1;
                self.order_block = Vec::new();
                self.order_block.push(0);
                self.scope_stack.push(target);
                return Ok(());
            }
            proof {
                assert(rs.subrange(0, i + 1).drop_last() =~= rs.subrange(0, i as int));
                assert(rs.subrange(0, i + 1).last() == rs[i as int]);
            }
        }
    }

    /// Enters the next unvisited child of the active scope and starts its
    /// own child counter at zero.
    pub fn push_block(&mut self) -> (r: Result<(), CompileError>)
        ensures
            old(self).same_defs(*final(self)),
            ({
                let stk = old(self).scope_stack@;
                let ord = old(self).order_block@;
                match r {
                    Ok(_) => {
                        &&& stk.len() > 0
                        &&& ord.len() > 0
                        &&& stk.last() < old(self).arena@.len()
                        &&& ord.last() < old(self).arena@[stk.last() as int].scopes@.len()
                        &&& final(self).scope_stack@ == stk.push(
                            old(self).arena@[stk.last() as int].scopes@[ord.last() as int],
                        )
                        &&& final(self).order_block@ == ord.push(0usize)
                    },
                    Err(e) => {
                        &&& e == CompileError::ScopeSync
                        &&& final(self).scope_stack == old(self).scope_stack
                        &&& final(self).order_block == old(self).order_block
                        &&& !(stk.len() > 0 && ord.len() > 0 && stk.last() < old(
                            self,
                        ).arena@.len() && ord.last() < old(self).arena@[stk.last() as int].scopes@.len())
                    },
                }
            }),
    {
        if self.scope_stack.len() == 0 || self.order_block.len() == 0 {
            return Err(CompileError::ScopeSync);
        }
        let top = self.scope_stack[self.scope_stack.len() - 1];
        let next = self.order_block[self.order_block.len() - 1];
        if top >= self.arena.len() {
            return Err(CompileError::ScopeSync);
        }
        if next >= self.arena[top].scopes.len() {
            return Err(CompileError::ScopeSync);
        }
        let child = self.arena[top].scopes[next];
        self.scope_stack.push(child);
        self.order_block.push(0);
        Ok(())
    }

    /// Leaves the active scope and marks it visited in its parent's
    /// counter.
    pub fn pop_block(&mut self) -> (r: Result<(), CompileError>)
        ensures
            old(self).same_defs(*final(self)),
            ({
                let stk = old(self).scope_stack@;
                let ord = old(self).order_block@;
                match r {
                    Ok(_) => {
                        &&& stk.len() > 0
                        &&& ord.len() >= 2
                        &&& ord[ord.len() - 2] < usize::MAX
                        &&& final(self).scope_stack@ == stk.drop_last()
                        &&& final(self).order_block@ == ord.drop_last().drop_last().push(
                            (ord[ord.len() - 2] + 1) as usize,
                        )
                    },
                    Err(e) => {
                        &&& e == CompileError::ScopeSync
                        &&& final(self).scope_stack == old(self).scope_stack
                        &&& final(self).order_block == old(self).order_block
                        &&& !(stk.len() > 0 && ord.len() >= 2 && ord[ord.len() - 2]
                            < usize::MAX)
                    },
                }
            }),
    {
        if self.scope_stack.len() == 0 || self.order_block.len() < 2 {
            return Err(CompileError::ScopeSync);
        }
        let parent_count = self.order_block[self.order_block.len() - 2];
        if parent_count == usize::MAX {
            return Err(CompileError::ScopeSync);
        }
        let _ = self.scope_stack.pop();
        let _ = self.order_block.pop();
        let _ = self.order_block.pop();
        self.order_block.push(parent_count + 1);
        Ok(())
    }

    /// Resolves a name through the active scope stack: innermost scope
    /// first, latest binding first (lexical shadowing).
    pub fn get_type(&self, name: &String) -> (r: Result<TypeInfo, CompileError>)
        ensures
            ({
                let found = spec_lookup(self.arena@, stk_ints(self.scope_stack@), name@);
                match r {
                    Ok(info) => found matches Some((si, vi)) && spec_type_info(
                        *self,
                        si,
                        vi,
                        info,
                    ),
                    Err(e) => match found {
                        None => e == CompileError::Resolution(ResolutionError { name: *name }),
                        Some((si, vi)) => {
                            let entry = self.arena@[si].var_map@[vi];
                            entry.typeref.type_base.base is Struct && match entry.typeref.type_base.name {
                                Some(sn) => struct_idx(self.global_define_map@, sn@) < 0 && e
                                    == CompileError::Resolution(ResolutionError { name: sn }),
                                None => e == CompileError::Resolution(
                                    ResolutionError { name: *name },
                                ),
                            }
                        },
                    },
                }
            }),
    {
        let ghost stk = stk_ints(self.scope_stack@);
        let mut i: usize = self.scope_stack.len();
        proof {
            assert(stk.subrange(0, stk.len() as int) =~= stk);
        }
        loop
            invariant
                i <= self.scope_stack@.len(),
                stk == stk_ints(self.scope_stack@),
                spec_lookup(self.arena@, stk, name@) == spec_lookup(
                    self.arena@,
                    stk.subrange(0, i as int),
                    name@,
                ),
            decreases i,
        {
            if i == 0 {
                proof {
                    assert(stk.subrange(0, 0) =~= Seq::<int>::empty());
                }
                return Err(
                    CompileError::Resolution(ResolutionError { name: name.clone() }),
                );
            }
            i = i - 1;
            proof {
                assert(stk.subrange(0, i + 1).drop_last() =~= stk.subrange(0, i as int));
                assert(stk.subrange(0, i + 1).last() == stk[i as int]);
            }
            let si = self.scope_stack[i];
            if si < self.arena.len() {
                let hit = Self::find_last(&self.arena[si].var_map, name);
                match hit {
                    Some(vi) => {
                        return self.build_info(si, vi, name);
                    },
                    None => {
                    },
                }
            }
        }
    }

    /// Resolves a name through the active scope stack to its binding's
    /// indices, without building a `TypeInfo`.
    pub fn lookup_entry(&self, name: &String) -> (r: Option<(usize, usize)>)
        ensures
            ({
                let found = spec_lookup(self.arena@, stk_ints(self.scope_stack@), name@);
                match r {
                    Some(p) => found == Some((p.0 as int, p.1 as int)) && p.0 < self.arena@.len()
                        && p.1 < self.arena@[p.0 as int].var_map@.len()
                        && self.arena@[p.0 as int].var_map@[p.1 as int].name@ == name@,
                    None => found is None,
                }
            }),
    {
        let ghost stk = stk_ints(self.scope_stack@);
        let mut i: usize = self.scope_stack.len();
        proof {
            assert(stk.subrange(0, stk.len() as int) =~= stk);
        }
        loop
            invariant
                i <= self.scope_stack@.len(),
                stk == stk_ints(self.scope_stack@),
                spec_lookup(self.arena@, stk, name@) == spec_lookup(
                    self.arena@,
                    stk.subrange(0, i as int),
                    name@,
                ),
            decreases i,
        {
            if i == 0 {
                proof {
                    assert(stk.subrange(0, 0) =~= Seq::<int>::empty());
                }
                return None;
            }
            i = i - 1;
            proof {
                assert(stk.subrange(0, i + 1).drop_last() =~= stk.subrange(0, i as int));
                assert(stk.subrange(0, i + 1).last() == stk[i as int]);
            }
            let si = self.scope_stack[i];
            if si < self.arena.len() {
                let hit = Self::find_last(&self.arena[si].var_map, name);
                match hit {
                    Some(vi) => {
                        return Some((si, vi));
                    },
                    None => {
                    },
                }
            }
        }
    }

    /// The latest binding of `name` in a binding list.
    fn find_last(vm: &Vec<VarEntry>, name: &String) -> (r: Option<usize>)
        ensures
            match r {
                Some(vi) => vi as int == last_idx(vm@, name@) && vi < vm@.len()
                    && vm@[vi as int].name@ == name@,
                None => last_idx(vm@, name@) < 0,
            },
    {
        let mut j: usize = vm.len();
        proof {
            assert(vm@.subrange(0, vm@.len() as int) =~= vm@);
        }
        loop
            invariant
                j <= vm@.len(),
                last_idx(vm@, name@) == last_idx(vm@.subrange(0, j as int), name@),
            decreases j,
        {
            if j == 0 {
                proof {
                    assert(vm@.subrange(0, 0) =~= Seq::<VarEntry>::empty());
                }
                return None;
            }
            j = j - 1;
            proof {
                assert(vm@.subrange(0, j + 1).drop_last() =~= vm@.subrange(0, j as int));
                assert(vm@.subrange(0, j + 1).last() == vm@[j as int]);
            }
            if vm[j].name == *name {
                return Some(j);
            }
        }
    }

    /// The latest struct definition named `name` in the global struct map.
    pub fn find_struct(&self, name: &String) -> (r: Option<usize>)
        ensures
            match r {
                Some(ix) => ix as int == struct_idx(self.global_define_map@, name@) && ix
                    < self.global_define_map@.len(),
                None => struct_idx(self.global_define_map@, name@) < 0,
            },
    {
        let ghost ds = self.global_define_map@;
        let mut j: usize = self.global_define_map.len();
        proof {
            assert(ds.subrange(0, ds.len() as int) =~= ds);
        }
        loop
            invariant
                j <= ds.len(),
                ds == self.global_define_map@,
                struct_idx(ds, name@) == struct_idx(ds.subrange(0, j as int), name@),
            decreases j,
        {
            if j == 0 {
                proof {
                    assert(ds.subrange(0, 0) =~= Seq::<DefStructNode>::empty());
                }
                return None;
            }
            j = j - 1;
            proof {
                assert(ds.subrange(0, j + 1).drop_last() =~= ds.subrange(0, j as int));
                assert(ds.subrange(0, j + 1).last() == ds[j as int]);
            }
            if self.global_define_map[j].name == *name {
                return Some(j);
            }
        }
    }

    /// The latest function signature named `name`.
    pub fn find_func(&self, name: &String) -> (r: Option<usize>)
        ensures
            match r {
                Some(ix) => ix as int == func_idx(self.func_map@, name@) && ix
                    < self.func_map@.len(),
                None => func_idx(self.func_map@, name@) < 0,
            },
    {
        let ghost ds = self.func_map@;
        let mut j: usize = self.func_map.len();
        proof {
            assert(ds.subrange(0, ds.len() as int) =~= ds);
        }
        loop
            invariant
                j <= ds.len(),
                ds == self.func_map@,
                func_idx(ds, name@) == func_idx(ds.subrange(0, j as int), name@),
            decreases j,
        {
            if j == 0 {
                proof {
                    assert(ds.subrange(0, 0) =~= Seq::<FuncSig>::empty());
                }
                return None;
            }
            j = j - 1;
            proof {
                assert(ds.subrange(0, j + 1).drop_last() =~= ds.subrange(0, j as int));
                assert(ds.subrange(0, j + 1).last() == ds[j as int]);
            }
            if self.func_map[j].name == *name {
                return Some(j);
            }
        }
    }

    /// Builds the `TypeInfo` for the binding at `(si, vi)`.
    fn build_info(&self, si: usize, vi: usize, name: &String) -> (r: Result<
        TypeInfo,
        CompileError,
    >)
        requires
            si < self.arena@.len(),
            vi < self.arena@[si as int].var_map@.len(),
            self.arena@[si as int].var_map@[vi as int].name@ == name@,
        ensures
            match r {
                Ok(info) => spec_type_info(*self, si as int, vi as int, info),
                Err(e) => ({
                    let entry = self.arena@[si as int].var_map@[vi as int];
                    entry.typeref.type_base.base is Struct && match entry.typeref.type_base.name {
                        Some(sn) => struct_idx(self.global_define_map@, sn@) < 0 && e
                            == CompileError::Resolution(ResolutionError { name: sn }),
                        None => e == CompileError::Resolution(ResolutionError { name: *name }),
                    }
                }),
            },
    {
        let entry = &self.arena[si].var_map[vi];
        let base = entry.typeref.type_base.base.clone();
        let mut nested: Vec<TypeDef> = Vec::new();
        let mut k: usize = 0;
        while k < entry.typeref.nested_def.len()
            invariant
                k <= entry.typeref.nested_def@.len(),
                nested@ =~= entry.typeref.nested_def@.subrange(0, k as int),
            decreases entry.typeref.nested_def@.len() - k,
        {
            nested.push(entry.typeref.nested_def[k]);
            k = k + 1;
        }
        proof {
            assert(nested@ =~= entry.typeref.nested_def@);
        }
        let origin_struct: Option<usize> = if matches!(base, Token::Struct) {
            match &entry.typeref.type_base.name {
                Some(sn) => match self.find_struct(sn) {
                    Some(ix) => Some(ix),
                    None => {
                        return Err(
                            CompileError::Resolution(ResolutionError { name: sn.clone() }),
                        );
                    },
                },
                None => {
                    return Err(
                        CompileError::Resolution(ResolutionError { name: name.clone() }),
                    );
                },
            }
        } else {
            None
        };
        Ok(
            TypeInfo {
                name: entry.name.clone(),
                origin_struct,
                origin_base: Some((si, vi)),
                base_type: base,
                nested_def: nested,
            },
        )
    }
}

/// Lexical shadowing, stated of the lookup rule itself: while an inner
/// scope that binds `name` is on the stack, lookup resolves to that inner
/// binding; once the inner scope is popped, the same lookup resolves to the
/// outer binding again.
pub proof fn lemma_shadowing(arena: Seq<LocalScope>, stack: Seq<int>, inner: int, name: Seq<char>)
    requires
        0 <= inner < arena.len(),
        last_idx(arena[inner].var_map@, name) >= 0,
    ensures
        spec_lookup(arena, stack.push(inner), name) == Some(
            (inner, last_idx(arena[inner].var_map@, name)),
        ),
{
    assert(stack.push(inner).last() == inner);
}

} // verus!
