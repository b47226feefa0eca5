//! Struct-cycle detection: the by-value member graph of the struct
//! definitions (an edge for every member embedded by value, none for
//! pointer or array members) must be acyclic, or the layout of some struct
//! would have to contain itself.
//!
//! `check_circle_def` accepts exactly the acyclic graphs: a rejection
//! carries a cycle witness, and an acceptance carries a finish-order
//! ranking that rules every cycle out.

use vstd::prelude::*;
use crate::ast::DefStructNode;
use crate::ast::SlotNode;
use crate::error::CompileError;
use crate::error::DefinitionError;
use crate::error::ResolutionError;
use crate::symbol_table::lemma_struct_idx_lt;
use crate::symbol_table::struct_idx;
use crate::token::Token;

verus! {

/// One node of the by-value member graph: a struct and the indices of the
/// structs it embeds by value.
#[derive(Debug)]
pub struct StructTypeNode {
    pub name: String,
    pub next: Vec<usize>,
}

/// A member that embeds another struct by value: a struct base with no
/// modifiers at all.
pub open spec fn byvalue_struct(m: SlotNode) -> bool {
    m.typeref.type_base.base is Struct && m.typeref.nested_def@.len() == 0
}

/// The by-value edge relation over the struct definitions themselves:
/// `a` embeds `b` when some member of `a` is a by-value struct member
/// whose name resolves to definition `b`.
pub open spec fn bv_edge(defs: Seq<DefStructNode>, a: usize, b: usize) -> bool {
    &&& a < defs.len()
    &&& b < defs.len()
    &&& exists|j: int|
        0 <= j < defs[a as int].member_list@.len() && byvalue_struct(
            #[trigger] defs[a as int].member_list@[j],
        ) && (defs[a as int].member_list@[j].typeref.type_base.name matches Some(sn)
            && struct_idx(defs, sn@) == b as int)
}

/// A cycle in the by-value member graph of the definitions.
pub open spec fn is_cycle_defs(defs: Seq<DefStructNode>, p: Seq<usize>) -> bool {
    &&& p.len() > 0
    &&& forall|k: int| 0 <= k < p.len() - 1 ==> #[trigger] bv_edge(defs, p[k], p[k + 1])
    &&& bv_edge(defs, p.last(), p.first())
}

/// The by-value member graph is acyclic.
pub open spec fn acyclic_defs(defs: Seq<DefStructNode>) -> bool {
    forall|p: Seq<usize>| !is_cycle_defs(defs, p)
}

/// Every by-value struct member names a defined struct.
pub open spec fn bv_members_resolve(defs: Seq<DefStructNode>) -> bool {
    forall|i: int, j: int|
        0 <= i < defs.len() && 0 <= j < defs[i].member_list@.len() && byvalue_struct(
            #[trigger] defs[i].member_list@[j],
        ) ==> (defs[i].member_list@[j].typeref.type_base.name matches Some(sn) && struct_idx(
            defs,
            sn@,
        ) >= 0)
}

/// The edge targets a member list contributes, in member order.
pub open spec fn spec_targets(defs: Seq<DefStructNode>, ms: Seq<SlotNode>) -> Seq<usize>
    decreases ms.len(),
{
    if ms.len() == 0 {
        Seq::empty()
    } else {
        let rest = spec_targets(defs, ms.drop_last());
        if byvalue_struct(ms.last()) {
            rest.push(
                (match ms.last().typeref.type_base.name {
                    Some(sn) => struct_idx(defs, sn@),
                    None => -1,
                }) as usize,
            )
        } else {
            rest
        }
    }
}

/// An edge in the graph node for `a` is exactly a by-value embedding among
/// `a`'s members, when all of them resolve.
proof fn lemma_targets_contains(defs: Seq<DefStructNode>, ms: Seq<SlotNode>, b: usize)
    requires
        defs.len() <= usize::MAX,
        forall|j: int|
            0 <= j < ms.len() && byvalue_struct(#[trigger] ms[j]) ==> (
            ms[j].typeref.type_base.name matches Some(sn) && struct_idx(defs, sn@) >= 0),
    ensures
        spec_targets(defs, ms).contains(b) <==> exists|j: int|
            0 <= j < ms.len() && byvalue_struct(#[trigger] ms[j]) && (
            ms[j].typeref.type_base.name matches Some(sn) && struct_idx(defs, sn@) == b as int),
    decreases ms.len(),
{
    if ms.len() > 0 {
        lemma_targets_contains(defs, ms.drop_last(), b);
        assert(forall|j: int| 0 <= j < ms.len() - 1 ==> ms.drop_last()[j] == ms[j]);
        assert(ms.last() == ms[ms.len() - 1]);
        let rest = spec_targets(defs, ms.drop_last());
        let lastm = ms.last();
        if byvalue_struct(lastm) {
            match lastm.typeref.type_base.name {
                Some(sn) => {
                    lemma_struct_idx_lt(defs, sn@);
                    let idx = struct_idx(defs, sn@);
                    let tgt = idx as usize;
                    assert(0 <= idx && idx < defs.len());
                    assert(tgt as int == idx);
                    assert(spec_targets(defs, ms) == rest.push(tgt));
                    if spec_targets(defs, ms).contains(b) {
                        let ix = choose|ix: int|
                            0 <= ix < rest.push(tgt).len() && rest.push(tgt)[ix] == b;
                        if ix < rest.len() {
                            assert(rest[ix] == b);
                            assert(rest.contains(b));
                            let j = choose|j: int|
                                0 <= j < ms.drop_last().len() && byvalue_struct(
                                    #[trigger] ms.drop_last()[j],
                                ) && (ms.drop_last()[j].typeref.type_base.name matches Some(sn2)
                                    && struct_idx(defs, sn2@) == b as int);
                            assert(byvalue_struct(ms[j]));
                        } else {
                            assert(b == tgt);
                            assert(byvalue_struct(ms[ms.len() - 1]));
                        }
                    }
                    if exists|j: int|
                        0 <= j < ms.len() && byvalue_struct(#[trigger] ms[j]) && (
                        ms[j].typeref.type_base.name matches Some(sn2) && struct_idx(defs, sn2@)
                            == b as int) {
                        let j = choose|j: int|
                            0 <= j < ms.len() && byvalue_struct(#[trigger] ms[j]) && (
                            ms[j].typeref.type_base.name matches Some(sn2) && struct_idx(
                                defs,
                                sn2@,
                            ) == b as int);
                        if j == ms.len() - 1 {
                            assert(b == tgt);
                            assert(rest.push(tgt)[rest.len() as int] == tgt);
                            assert(spec_targets(defs, ms).contains(b));
                        } else {
                            assert(byvalue_struct(ms.drop_last()[j]));
                            assert(rest.contains(b));
                            let ix = choose|ix: int| 0 <= ix < rest.len() && rest[ix] == b;
                            assert(rest.push(tgt)[ix] == b);
                            assert(spec_targets(defs, ms).contains(b));
                        }
                    }
                },
                None => {
                },
            }
        } else {
            assert(spec_targets(defs, ms) == rest);
            if exists|j: int|
                0 <= j < ms.len() && byvalue_struct(#[trigger] ms[j]) && (
                ms[j].typeref.type_base.name matches Some(sn2) && struct_idx(defs, sn2@)
                    == b as int) {
                let j = choose|j: int|
                    0 <= j < ms.len() && byvalue_struct(#[trigger] ms[j]) && (
                    ms[j].typeref.type_base.name matches Some(sn2) && struct_idx(defs, sn2@)
                        == b as int);
                assert(j < ms.len() - 1);
                assert(byvalue_struct(ms.drop_last()[j]));
            }
            if rest.contains(b) {
                let j = choose|j: int|
                    0 <= j < ms.drop_last().len() && byvalue_struct(
                        #[trigger] ms.drop_last()[j],
                    ) && (ms.drop_last()[j].typeref.type_base.name matches Some(sn2)
                        && struct_idx(defs, sn2@) == b as int);
                assert(byvalue_struct(ms[j]));
            }
        }
    }
}

// ---------------------------------------------------------------------------
// Building the graph.
// ---------------------------------------------------------------------------
/// What a well-formed graph for `defs` looks like: one node per struct,
/// same names, and exactly the by-value edges.
pub open spec fn graph_matches(g: Seq<StructTypeNode>, defs: Seq<DefStructNode>) -> bool {
    &&& g.len() == defs.len()
    &&& forall|i: int| 0 <= i < g.len() ==> #[trigger] g[i].name@ == defs[i].name@
    &&& forall|i: int|
        0 <= i < g.len() ==> #[trigger] g[i].next@ == spec_targets(defs, defs[i].member_list@)
}

/// Builds the by-value member graph: node `i` for struct `i`, an edge for
/// every member that embeds a struct by value.  A by-value member naming
/// an undefined struct is a resolution error.
#[verifier::loop_isolation(false)]
pub fn build_type_graph(defines: &Vec<DefStructNode>) -> (r: Result<
    Vec<StructTypeNode>,
    CompileError,
>)
    ensures
        match r {
            Ok(g) => graph_matches(g@, defines@) && bv_members_resolve(defines@),
            Err(e) => !bv_members_resolve(defines@) && e is Resolution,
        },
{
    let mut g: Vec<StructTypeNode> = Vec::new();
    let mut i: usize = 0;
    while i < defines.len()
        invariant
            i <= defines@.len(),
            g@.len() == i,
            forall|x: int| 0 <= x < i ==> #[trigger] g@[x].name@ == defines@[x].name@,
            forall|x: int|
                0 <= x < i ==> #[trigger] g@[x].next@ == spec_targets(
                    defines@,
                    defines@[x].member_list@,
                ),
            forall|x: int, j: int|
                0 <= x < i && 0 <= j < defines@[x].member_list@.len() && byvalue_struct(
                    #[trigger] defines@[x].member_list@[j],
                ) ==> (defines@[x].member_list@[j].typeref.type_base.name matches Some(sn)
                    && struct_idx(defines@, sn@) >= 0),
        decreases defines@.len() - i,
    {
        let d = &defines[i];
        let mut next: Vec<usize> = Vec::new();
        let mut j: usize = 0;
        while j < d.member_list.len()
            invariant
                j <= d.member_list@.len(),
                d == defines@[i as int],
                next@ =~= spec_targets(defines@, d.member_list@.subrange(0, j as int)),
                forall|jj: int|
                    0 <= jj < j && byvalue_struct(#[trigger] d.member_list@[jj]) ==> (
                    d.member_list@[jj].typeref.type_base.name matches Some(sn) && struct_idx(
                        defines@,
                        sn@,
                    ) >= 0),
            decreases d.member_list@.len() - j,
        {
            let m = &d.member_list[j];
            proof {
                assert(d.member_list@.subrange(0, j + 1).drop_last() =~= d.member_list@.subrange(
                    0,
                    j as int,
                ));
                assert(d.member_list@.subrange(0, j + 1).last() == d.member_list@[j as int]);
            }
            if matches!(m.typeref.type_base.base, Token::Struct) && m.typeref.nested_def.len()
                == 0 {
                match &m.typeref.type_base.name {
                    Some(sn) => {
                        match find_struct_in(defines, sn) {
                            Some(ix) => {
                                next.push(ix);
                            },
                            None => {
                                return Err(
                                    CompileError::Resolution(
                                        ResolutionError { name: sn.clone() },
                                    ),
                                );
                            },
                        }
                    },
                    None => {
                        return Err(
                            CompileError::Resolution(ResolutionError { name: d.name.clone() }),
                        );
                    },
                }
            }
            j = j + 1;
        }
        proof {
            assert(d.member_list@.subrange(0, d.member_list@.len() as int)
                =~= d.member_list@);
        }
        g.push(StructTypeNode { name: d.name.clone(), next });
        i = i + 1;
    }
    Ok(g)
}

/// The latest struct definition with the given name.
#[verifier::loop_isolation(false)]
fn find_struct_in(defs: &Vec<DefStructNode>, name: &String) -> (r: Option<usize>)
    ensures
        match r {
            Some(ix) => ix as int == struct_idx(defs@, name@) && ix < defs@.len(),
            None => struct_idx(defs@, name@) < 0,
        },
{
    let ghost ds = defs@;
    let mut j: usize = defs.len();
    proof {
        assert(ds.subrange(0, ds.len() as int) =~= ds);
    }
    loop
        invariant
            j <= ds.len(),
            struct_idx(ds, name@) == struct_idx(ds.subrange(0, j as int), name@),
        decreases j,
    {
        if j == 0 {
            proof {
                assert(ds.subrange(0, 0) =~= Seq::<DefStructNode>::empty());
            }
            return None;
        }
        j = j - 1;
        proof {
            assert(ds.subrange(0, j + 1).drop_last() =~= ds.subrange(0, j as int));
            assert(ds.subrange(0, j + 1).last() == ds[j as int]);
        }
        if defs[j].name == *name {
            return Some(j);
        }
    }
}

// ---------------------------------------------------------------------------
// Depth-first traversal.
// ---------------------------------------------------------------------------
/// Traversal colors: unvisited, on the current path, finished.
#[derive(Debug, Clone, Copy, PartialEq, Eq, Structural)]
pub enum Color {
    White,
    Gray,
    Black,
}

/// A cycle in a graph given by adjacency lists.
pub open spec fn is_cycle(g: Seq<StructTypeNode>, p: Seq<usize>) -> bool {
    &&& p.len() > 0
    &&& forall|k: int| 0 <= k < p.len() ==> #[trigger] p[k] < g.len()
    &&& forall|k: int| 0 <= k < p.len() - 1 ==> #[trigger] g[p[k] as int].next@.contains(p[k + 1])
    &&& g[p.last() as int].next@.contains(p.first())
}

/// Every edge stays inside the graph.
pub open spec fn g_wf(g: Seq<StructTypeNode>) -> bool {
    forall|k: int, e: int|
        0 <= k < g.len() && 0 <= e < g[k].next@.len() ==> #[trigger] g[k].next@[e] < g.len()
}

/// The number of unvisited nodes.
pub open spec fn num_white(cs: Seq<Color>) -> nat
    decreases cs.len(),
{
    if cs.len() == 0 {
        0
    } else {
        num_white(cs.drop_last()) + if cs.last() is White {
            1nat
        } else {
            0nat
        }
    }
}

proof fn lemma_nw_update(cs: Seq<Color>, i: int, c: Color)
    requires
        0 <= i < cs.len(),
        cs[i] is White,
        !(c is White),
    ensures
        num_white(cs.update(i, c)) + 1 == num_white(cs),
    decreases cs.len(),
{
    if i == cs.len() - 1 {
        assert(cs.update(i, c).drop_last() =~= cs.drop_last());
    } else {
        assert(cs.update(i, c).drop_last() =~= cs.drop_last().update(i, c));
        lemma_nw_update(cs.drop_last(), i, c);
    }
}

proof fn lemma_nw_mono(a: Seq<Color>, b: Seq<Color>)
    requires
        a.len() == b.len(),
        forall|v: int| 0 <= v < a.len() ==> b[v] == a[v] || (a[v] is White && b[v] is Black),
    ensures
        num_white(b) <= num_white(a),
    decreases a.len(),
{
    if a.len() > 0 {
        assert(forall|v: int|
            0 <= v < a.len() - 1 ==> a.drop_last()[v] == a[v] && b.drop_last()[v] == b[v]);
        lemma_nw_mono(a.drop_last(), b.drop_last());
    }
}

/// The traversal state: colors, and the ghost finish ranking that shows
/// finished nodes cannot lie on a cycle.
pub struct DfsState {
    pub colors: Vec<Color>,
    pub fin: Ghost<Map<int, int>>,
    pub counter: Ghost<int>,
}

impl DfsState {
    /// The traversal invariant over a graph: sizes match; every edge out
    /// of a finished node leads to a finished node of strictly smaller
    /// finish rank.
    pub open spec fn inv(self, g: Seq<StructTypeNode>) -> bool {
        &&& self.colors@.len() == g.len()
        &&& forall|v: int|
            0 <= v < g.len() && (#[trigger] self.colors@[v]) is Black ==> self.fin@.dom().contains(
                v,
            ) && self.fin@[v] < self.counter@
        &&& forall|v: int, e: int|
            0 <= v < g.len() && self.colors@[v] is Black && 0 <= e < g[v].next@.len() ==> {
                let w = #[trigger] g[v].next@[e] as int;
                self.colors@[w] is Black && self.fin@[w] < self.fin@[v]
            }
    }
}

/// Along a cycle of finished nodes, finish ranks strictly descend.
proof fn lemma_fin_desc(g: Seq<StructTypeNode>, st: DfsState, p: Seq<usize>, k: int)
    requires
        st.inv(g),
        is_cycle(g, p),
        forall|v: int| 0 <= v < g.len() ==> st.colors@[v] is Black,
        1 <= k < p.len(),
    ensures
        st.fin@[p[k] as int] < st.fin@[p[0] as int],
    decreases k,
{
    if k > 1 {
        lemma_fin_desc(g, st, p, k - 1);
    }
    assert(0 <= k - 1 < p.len() - 1);
    assert(g[p[k - 1] as int].next@.contains(p[(k - 1) + 1]));
    assert(p[(k - 1) + 1] == p[k]);
    let e = choose|e: int|
        0 <= e < g[p[k - 1] as int].next@.len() && #[trigger] g[p[k - 1] as int].next@[e] == p[k];
    assert(st.fin@[p[k] as int] < st.fin@[p[k - 1] as int]);
}

/// When every node is finished, the finish ranking rules out every cycle.
proof fn lemma_all_black_acyclic(g: Seq<StructTypeNode>, st: DfsState)
    requires
        st.inv(g),
        forall|v: int| 0 <= v < g.len() ==> st.colors@[v] is Black,
    ensures
        forall|p: Seq<usize>| !is_cycle(g, p),
{
    assert forall|p: Seq<usize>| !is_cycle(g, p) by {
        if is_cycle(g, p) {
            let e = choose|e: int|
                0 <= e < g[p.last() as int].next@.len() && #[trigger] g[p.last() as int].next@[e]
                    == p.first();
            if p.len() == 1 {
                assert(st.fin@[p[0] as int] < st.fin@[p[0] as int]);
            } else {
                lemma_fin_desc(g, st, p, p.len() - 1);
                assert(st.fin@[p.first() as int] < st.fin@[p.last() as int]);
            }
        }
    }
}

/// Depth-first traversal from node `i`, which must be unvisited.  `path`
/// is the current chain of on-path nodes, each linked to the next by an
/// edge, ending in an edge to `i` (when the chain is not empty).  Finding
/// an on-path node again is a cycle.
#[verifier::loop_isolation(false)]
pub fn depth_traversal(
    graph: &Vec<StructTypeNode>,
    i: usize,
    st: &mut DfsState,
    Ghost(path): Ghost<Seq<usize>>,
) -> (r: Result<(), CompileError>)
    requires
        g_wf(graph@),
        old(st).inv(graph@),
        i < graph@.len(),
        old(st).colors@[i as int] is White,
        forall|k: int| 0 <= k < path.len() ==> #[trigger] path[k] < graph@.len(),
        forall|k: int| 0 <= k < path.len() ==> old(st).colors@[#[trigger] path[k] as int] is Gray,
        forall|v: int|
            0 <= v < graph@.len() && old(st).colors@[v] is Gray ==> path.contains(v as usize),
        forall|k: int|
            0 <= k < path.len() - 1 ==> #[trigger] graph@[path[k] as int].next@.contains(
                path[k + 1],
            ),
        path.len() > 0 ==> graph@[path.last() as int].next@.contains(i),
    ensures
        final(st).colors@.len() == old(st).colors@.len(),
        r is Ok ==> final(st).inv(graph@),
        r is Ok ==> forall|v: int|
            0 <= v < graph@.len() ==> final(st).colors@[v] == old(st).colors@[v] || (old(
                st,
            ).colors@[v] is White && final(st).colors@[v] is Black),
        r is Ok ==> final(st).colors@[i as int] is Black,
        r is Err ==> exists|p: Seq<usize>| is_cycle(graph@, p),
        r matches Err(e) ==> e is Definition,
    decreases num_white(old(st).colors@),
{
    let ghost entry = *st;
    st.colors.set(i, Color::Gray);
    proof {
        lemma_nw_update(entry.colors@, i as int, Color::Gray);
    }
    let ghost path2 = path.push(i);
    let node = &graph[i];
    let mut e: usize = 0;
    while e < node.next.len()
        invariant
            e <= node.next@.len(),
            st.inv(graph@),
            st.colors@.len() == graph@.len(),
            st.colors@[i as int] is Gray,
            num_white(st.colors@) < num_white(entry.colors@),
            forall|v: int|
                0 <= v < graph@.len() ==> st.colors@[v] == entry.colors@[v] || (v == i
                    && st.colors@[v] is Gray) || (entry.colors@[v] is White
                    && st.colors@[v] is Black),
            forall|v: int|
                0 <= v < graph@.len() && st.colors@[v] is Gray <==> 0 <= v < graph@.len()
                    && (entry.colors@[v] is Gray || v == i),
            forall|k: int| 0 <= k < e ==> st.colors@[#[trigger] node.next@[k] as int] is Black,
        decreases node.next@.len() - e,
    {
        let c = node.next[e];
        proof {
            assert(graph@[i as int].next@[e as int] == c);
        }
        let cc = st.colors[c];
        if matches!(cc, Color::Gray) {
            // A node on the current path is reachable again: a cycle.
            proof {
                if c == i {
                    let ghost w = seq![i];
                    assert(graph@[i as int].next@.contains(c));
                    assert(is_cycle(graph@, w));
                } else {
                    assert(path.contains(c as usize));
                    let ix = choose|ix: int| 0 <= ix < path.len() && path[ix] == c;
                    let ghost w = path.subrange(ix, path.len() as int).push(i);
                    assert(w.first() == c);
                    assert(w.last() == i);
                    assert forall|k: int| 0 <= k < w.len() - 1 implies #[trigger] graph@[
                        w[k] as int
                    ].next@.contains(w[k + 1]) by {
                        if k < w.len() - 2 {
                            assert(w[k] == path[ix + k] && w[k + 1] == path[ix + k + 1]);
                        } else {
                            assert(w[k] == path.last());
                        }
                    }
                    assert(graph@[w.last() as int].next@.contains(w.first()));
                    assert(is_cycle(graph@, w));
                }
            }
            return Err(
                CompileError::Definition(DefinitionError { name: node.name.clone() }),
            );
        } else if matches!(cc, Color::White) {
            let ghost pre = *st;
            proof {
                assert(graph@[i as int].next@.contains(c));
                assert forall|v: int|
                    0 <= v < graph@.len() && st.colors@[v] is Gray implies path2.contains(
                    v as usize,
                ) by {
                    if v != i as int {
                        assert(entry.colors@[v] is Gray);
                        assert(old(st).colors@[v] is Gray);
                        assert(path.contains(v as usize));
                        let ix = choose|ix: int| 0 <= ix < path.len() && path[ix] == v as usize;
                        assert(path2[ix] == v as usize);
                    } else {
                        assert(path2[path.len() as int] == i);
                    }
                }
                assert forall|k: int| 0 <= k < path2.len() implies st.colors@[
                    #[trigger] path2[k] as int
                ] is Gray by {
                    if k < path.len() {
                        assert(path2[k] == path[k]);
                    } else {
                        assert(path2[k] == i);
                    }
                }
                assert forall|k: int|
                    0 <= k < path2.len() - 1 implies #[trigger] graph@[
                    path2[k] as int
                ].next@.contains(path2[k + 1]) by {
                    if k < path.len() - 1 {
                        assert(path2[k] == path[k] && path2[k + 1] == path[k + 1]);
                    } else {
                        assert(path2[k] == path.last() && path2[k + 1] == i);
                    }
                }
                assert(path2.last() == i);
            }
            let stepped = depth_traversal(graph, c, st, Ghost(path2));
            match stepped {
                Ok(_) => {
                    proof {
                        lemma_nw_mono(pre.colors@, st.colors@);
                    }
                },
                Err(er) => {
                    return Err(er);
                },
            }
        }
        e = e + 1;
    }
    let ghost pre_fin = *st;
    st.colors.set(i, Color::Black);
    proof {
        st.fin@ = st.fin@.insert(i as int, st.counter@);
        st.counter@ = st.counter@ + 1;
        lemma_nw_mono(entry.colors@, st.colors@);
        assert forall|v: int, e: int|
            0 <= v < graph@.len() && st.colors@[v] is Black && 0 <= e < graph@[v].next@.len()
            implies ({
            let w = #[trigger] graph@[v].next@[e] as int;
            st.colors@[w] is Black && st.fin@[w] < st.fin@[v]
        }) by {
            let w = graph@[v].next@[e] as int;
            if v == i as int {
                assert(pre_fin.inv(graph@));
                assert(0 <= w < graph@.len());
                assert(pre_fin.colors@[w] is Black);
                assert(w != i as int);
                assert(st.fin@[w] == pre_fin.fin@[w]);
                assert(pre_fin.fin@[w] < pre_fin.counter@);
                assert(st.fin@[v] == pre_fin.counter@);
                assert(st.colors@[w] is Black);
                assert(st.fin@[w] < st.fin@[v]);
            } else {
                assert(pre_fin.colors@[v] is Black);
                assert(w != i as int);
            }
        }
        assert(st.inv(graph@));
    }
    Ok(())
}

/// Accepts exactly the struct tables whose by-value member graph is
/// acyclic: depth-first traversal from every node, rejecting when a node
/// on the current path is reached again.
#[verifier::loop_isolation(false)]
pub fn check_circle_def(defines: &Vec<DefStructNode>) -> (r: Result<(), CompileError>)
    ensures
        r is Ok ==> bv_members_resolve(defines@) && acyclic_defs(defines@),
        r matches Err(e) ==> (e is Resolution && !bv_members_resolve(defines@)) || (
        e is Definition && !acyclic_defs(defines@)),
{
    let n = defines.len();
    proof {
        assert(defines@.len() == n);
    }
    let graph = match build_type_graph(defines) {
        Ok(g) => g,
        Err(e) => {
            return Err(e);
        },
    };
    proof {
        lemma_graph_edges(graph@, defines@);
    }
    let mut st = DfsState {
        colors: Vec::new(),
        fin: Ghost(Map::empty()),
        counter: Ghost(0),
    };
    let mut k: usize = 0;
    while k < graph.len()
        invariant
            k <= graph@.len(),
            st.colors@.len() == k,
            forall|v: int| 0 <= v < k ==> st.colors@[v] is White,
        decreases graph@.len() - k,
    {
        st.colors.push(Color::White);
        k = k + 1;
    }
    let mut i: usize = 0;
    while i < graph.len()
        invariant
            i <= graph@.len(),
            st.inv(graph@),
            st.colors@.len() == graph@.len(),
            forall|v: int| 0 <= v < graph@.len() ==> !(st.colors@[v] is Gray),
            forall|v: int| 0 <= v < i ==> st.colors@[v] is Black,
        decreases graph@.len() - i,
    {
        let ci = st.colors[i];
        if matches!(ci, Color::White) {
            let stepped = depth_traversal(&graph, i, &mut st, Ghost(Seq::empty()));
            match stepped {
                Ok(_) => {
                },
                Err(er) => {
                    proof {
                        lemma_cycle_transfer(graph@, defines@);
                    }
                    return Err(er);
                },
            }
        }
        i = i + 1;
    }
    proof {
        lemma_all_black_acyclic(graph@, st);
        lemma_cycle_transfer(graph@, defines@);
    }
    Ok(())
}

/// The graph's adjacency is exactly the by-value edge relation.
proof fn lemma_graph_edges(g: Seq<StructTypeNode>, defs: Seq<DefStructNode>)
    requires
        defs.len() <= usize::MAX,
        graph_matches(g, defs),
        bv_members_resolve(defs),
    ensures
        g_wf(g),
        forall|a: usize, b: usize|
            a < g.len() ==> (#[trigger] g[a as int].next@.contains(b) <==> bv_edge(defs, a, b)),
{
    assert forall|a: usize, b: usize| a < g.len() implies (#[trigger] g[a as int].next@.contains(
        b,
    ) <==> bv_edge(defs, a, b)) by {
        lemma_targets_contains(defs, defs[a as int].member_list@, b);
        if g[a as int].next@.contains(b) {
            lemma_member_target_lt(g, defs, a as int, b);
        }
    }
    assert forall|k: int, e: int|
        0 <= k < g.len() && 0 <= e < g[k].next@.len() implies #[trigger] g[k].next@[e]
        < g.len() by {
        let b = g[k].next@[e];
        assert(g[k].next@.contains(b));
        lemma_targets_contains(defs, defs[k].member_list@, b);
        lemma_member_target_lt(g, defs, k, b);
    }
}

/// A target drawn from a member list is a valid definition index.
proof fn lemma_member_target_lt(g: Seq<StructTypeNode>, defs: Seq<DefStructNode>, a: int, b: usize)
    requires
        defs.len() <= usize::MAX,
        graph_matches(g, defs),
        bv_members_resolve(defs),
        0 <= a < defs.len(),
        exists|j: int|
            0 <= j < defs[a].member_list@.len() && byvalue_struct(
                #[trigger] defs[a].member_list@[j],
            ) && (defs[a].member_list@[j].typeref.type_base.name matches Some(sn) && struct_idx(
                defs,
                sn@,
            ) == b as int),
    ensures
        b < defs.len(),
{
    let j = choose|j: int|
        0 <= j < defs[a].member_list@.len() && byvalue_struct(
            #[trigger] defs[a].member_list@[j],
        ) && (defs[a].member_list@[j].typeref.type_base.name matches Some(sn) && struct_idx(
            defs,
            sn@,
        ) == b as int);
    let m = defs[a].member_list@[j];
    match m.typeref.type_base.name {
        Some(sn) => {
            lemma_struct_idx_lt(defs, sn@);
        },
        None => {
        },
    }
}

/// Graph cycles and definition-level cycles coincide.
proof fn lemma_cycle_transfer(g: Seq<StructTypeNode>, defs: Seq<DefStructNode>)
    requires
        defs.len() <= usize::MAX,
        graph_matches(g, defs),
        bv_members_resolve(defs),
    ensures
        (exists|p: Seq<usize>| is_cycle(g, p)) <==> !acyclic_defs(defs),
{
    lemma_graph_edges(g, defs);
    if exists|p: Seq<usize>| is_cycle(g, p) {
        let p = choose|p: Seq<usize>| is_cycle(g, p);
        assert forall|k: int| 0 <= k < p.len() - 1 implies #[trigger] bv_edge(
            defs,
            p[k],
            p[k + 1],
        ) by {
            assert(g[p[k] as int].next@.contains(p[k + 1]));
        }
        assert(g[p.last() as int].next@.contains(p.first()));
        assert(bv_edge(defs, p.last(), p.first()));
        assert(is_cycle_defs(defs, p));
    }
    if !acyclic_defs(defs) {
        let p = choose|p: Seq<usize>| is_cycle_defs(defs, p);
        assert forall|k: int| 0 <= k < p.len() implies #[trigger] p[k] < g.len() by {
            if k < p.len() - 1 {
                assert(bv_edge(defs, p[k], p[k + 1]));
            } else {
                assert(p[k] == p.last());
                assert(bv_edge(defs, p.last(), p.first()));
            }
        }
        assert forall|k: int| 0 <= k < p.len() - 1 implies #[trigger] g[
            p[k] as int
        ].next@.contains(p[k + 1]) by {
            assert(bv_edge(defs, p[k], p[k + 1]));
        }
        assert(bv_edge(defs, p.last(), p.first()));
        assert(g[p.last() as int].next@.contains(p.first()));
        assert(is_cycle(g, p));
    }
}

} // verus!
