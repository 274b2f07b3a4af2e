//! The dependency and lifetime analyzer: derives the read/write hazard
//! relation between nodes and the access interval of every resource.
//!
//! Two nodes conflict when they touch overlapping subresource ranges of one
//! resource and at least one of the touches writes (unless both accept
//! relaxed ordering). Any non-empty range intersection counts as a full
//! hazard. The derived edges always point from the earlier node in program
//! order to the later one, so the relation is acyclic by construction;
//! cycles can only be expressed against scheduled positions and are caught
//! by the scheduler.

use vstd::prelude::*;

use crate::access::accesses_hazard;
use crate::access::accesses_hazard_exec;
use crate::graph::{NodeInfo, RenderGraphBuilder, ResourceAccessInfo};
use crate::resource::{ranges_overlap, subresource_ranges_overlap};

verus! {

/// Whether two touches conflict: same resource, overlapping ranges, and a
/// hazarding pair of access classes.
pub open spec fn touches_conflict(a: ResourceAccessInfo, b: ResourceAccessInfo) -> bool {
    a.resource_id == b.resource_id && ranges_overlap(a.range, b.range) && accesses_hazard(
        a.access,
        b.access,
    )
}

/// Whether any argument of `n1` conflicts with any argument of `n2`.
pub open spec fn nodes_conflict(n1: NodeInfo, n2: NodeInfo) -> bool {
    exists|i: int, k: int|
        0 <= i < n1.accesses@.len() && 0 <= k < n2.accesses@.len() && touches_conflict(
            #[trigger] n1.accesses@[i],
            #[trigger] n2.accesses@[k],
        )
}

/// Whether the dependency DAG has an edge from node `i` to the later node
/// `j`: the hazard relation restricted to program order.
pub open spec fn dep_edge(nodes: Seq<NodeInfo>, i: int, j: int) -> bool {
    0 <= i < j < nodes.len() && nodes_conflict(nodes[i], nodes[j])
}

/// Whether the edge list holds the pair `(i, j)`.
pub open spec fn edge_in(edges: Seq<(usize, usize)>, i: int, j: int) -> bool {
    exists|k: int| 0 <= k < edges.len() && (#[trigger] edges[k]).0 == i && edges[k].1 == j
}

/// Strict lexicographic order on edge pairs.
pub open spec fn edge_lex_less(a: (usize, usize), b: (usize, usize)) -> bool {
    a.0 < b.0 || (a.0 == b.0 && a.1 < b.1)
}

/// The derived dependency DAG of one graph: every hazard pair of nodes,
/// as edges from the earlier node to the later one, in lexicographic order.
pub struct DependencyGraph {
    pub num_nodes: usize,
    pub edges: Vec<(usize, usize)>,
}

/// The invariant of a derived dependency DAG: edges point forward within
/// the node range and the list is strictly ordered, so it has no duplicate.
pub open spec fn dag_wf(d: DependencyGraph) -> bool {
    &&& forall|k: int|
        0 <= k < d.edges@.len() ==> (#[trigger] d.edges@[k]).0 < d.edges@[k].1 < d.num_nodes
    &&& forall|k1: int, k2: int|
        0 <= k1 < k2 < d.edges@.len() ==> edge_lex_less(
            #[trigger] d.edges@[k1],
            #[trigger] d.edges@[k2],
        )
}

/// Whether the DAG is exactly the hazard relation of the node list: every
/// edge is a program-order hazard pair, and every hazard pair is an edge.
pub open spec fn dag_matches(nodes: Seq<NodeInfo>, d: DependencyGraph) -> bool {
    &&& d.num_nodes == nodes.len()
    &&& forall|k: int|
        0 <= k < d.edges@.len() ==> dep_edge(
            nodes,
            (#[trigger] d.edges@[k]).0 as int,
            d.edges@[k].1 as int,
        )
    &&& forall|i: int, j: int| dep_edge(nodes, i, j) ==> #[trigger] edge_in(d.edges@, i, j)
}

/// Whether two node arguments conflict.
pub fn accesses_conflict(a: &ResourceAccessInfo, b: &ResourceAccessInfo) -> (r: bool)
    ensures
        r == touches_conflict(*a, *b),
{
    a.resource_id == b.resource_id && subresource_ranges_overlap(&a.range, &b.range)
        && accesses_hazard_exec(&a.access, &b.access)
}

/// Whether any argument of `n1` conflicts with any argument of `n2`.
pub fn nodes_conflict_exec(n1: &NodeInfo, n2: &NodeInfo) -> (r: bool)
    ensures
        r == nodes_conflict(*n1, *n2),
{
    let mut i: usize = 0;
    while i < n1.accesses.len()
        invariant
            0 <= i <= n1.accesses@.len(),
            forall|p: int, q: int|
                0 <= p < i && 0 <= q < n2.accesses@.len() ==> !touches_conflict(
                    #[trigger] n1.accesses@[p],
                    #[trigger] n2.accesses@[q],
                ),
        decreases n1.accesses@.len() - i,
    {
        let mut k: usize = 0;
        while k < n2.accesses.len()
            invariant
                0 <= i < n1.accesses@.len(),
                0 <= k <= n2.accesses@.len(),
                forall|q: int|
                    0 <= q < k ==> !touches_conflict(
                        n1.accesses@[i as int],
                        #[trigger] n2.accesses@[q],
                    ),
            decreases n2.accesses@.len() - k,
        {
            if accesses_conflict(&n1.accesses[i], &n2.accesses[k]) {
                return true;
            }
            k = k + 1;
        }
        i = i + 1;
    }
    false
}

/// Derives the dependency DAG of the graph: one edge for every pair of
/// nodes whose arguments hazard, pointing from the earlier node in program
/// order to the later one, listed in lexicographic order without
/// duplicates.
pub fn build_dependencies(g: &RenderGraphBuilder) -> (d: DependencyGraph)
    ensures
        dag_wf(d),
        dag_matches(g.nodes@, d),
{
    let n = g.nodes.len();
    let mut edges: Vec<(usize, usize)> = Vec::new();
    let mut i: usize = 0;
    while i < n
        invariant
            n == g.nodes@.len(),
            0 <= i <= n,
            forall|k: int|
                0 <= k < edges@.len() ==> (#[trigger] edges@[k]).0 < edges@[k].1 < n,
            forall|k1: int, k2: int|
                0 <= k1 < k2 < edges@.len() ==> edge_lex_less(
                    #[trigger] edges@[k1],
                    #[trigger] edges@[k2],
                ),
            forall|k: int| 0 <= k < edges@.len() ==> (#[trigger] edges@[k]).0 < i,
            forall|k: int|
                0 <= k < edges@.len() ==> dep_edge(
                    g.nodes@,
                    (#[trigger] edges@[k]).0 as int,
                    edges@[k].1 as int,
                ),
            forall|p: int, q: int|
                0 <= p < i && p < q < n && dep_edge(g.nodes@, p, q) ==> #[trigger] edge_in(
                    edges@,
                    p,
                    q,
                ),
        decreases n - i,
    {
        let mut j: usize = i + 1;
        while j < n
            invariant
                n == g.nodes@.len(),
                0 <= i < n,
                i + 1 <= j <= n,
                forall|k: int|
                    0 <= k < edges@.len() ==> (#[trigger] edges@[k]).0 < edges@[k].1 < n,
                forall|k1: int, k2: int|
                    0 <= k1 < k2 < edges@.len() ==> edge_lex_less(
                        #[trigger] edges@[k1],
                        #[trigger] edges@[k2],
                    ),
                forall|k: int|
                    0 <= k < edges@.len() ==> (#[trigger] edges@[k]).0 < i || (edges@[k].0 == i
                        && edges@[k].1 < j),
                forall|k: int|
                    0 <= k < edges@.len() ==> dep_edge(
                        g.nodes@,
                        (#[trigger] edges@[k]).0 as int,
                        edges@[k].1 as int,
                    ),
                forall|p: int, q: int|
                    0 <= p < n && p < q < n && (p < i || (p == i && q < j)) && dep_edge(
                        g.nodes@,
                        p,
                        q,
                    ) ==> #[trigger] edge_in(edges@, p, q),
            decreases n - j,
        {
            let ghost edges0 = edges@;
            let conflict = nodes_conflict_exec(&g.nodes[i], &g.nodes[j]);
            if conflict {
                edges.push((i, j));
            }
            proof {
                assert forall|p: int, q: int|
                    0 <= p < n && p < q < n && (p < i || (p == i && q < j + 1)) && dep_edge(
                        g.nodes@,
                        p,
                        q,
                    ) implies #[trigger] edge_in(edges@, p, q) by {
                    if p == i as int && q == j as int {
                        assert(nodes_conflict(g.nodes@[p], g.nodes@[q]));
                        assert(edges@[edges0.len() as int] == (i, j));
                    } else {
                        assert(edge_in(edges0, p, q));
                        let k = choose|k: int|
                            0 <= k < edges0.len() && (#[trigger] edges0[k]).0 == p && edges0[k].1
                                == q;
                        assert(edges@[k] == edges0[k]);
                    }
                }
            }
            j = j + 1;
        }
        i = i + 1;
    }
    DependencyGraph { num_nodes: n, edges }
}

/// The access interval of one resource: positions of its first and last
/// touch under a given node ordering.
#[derive(Clone, Copy, Debug, PartialEq, Eq, Structural)]
pub struct LifetimeInterval {
    pub first: u32,
    pub last: u32,
}

/// Whether one of the first `k` arguments of the node references the
/// resource.
pub open spec fn touches_prefix(n: NodeInfo, rid: int, k: int) -> bool {
    exists|t: int| 0 <= t < k && (#[trigger] n.accesses@[t]).resource_id == rid
}

/// Whether the node references the resource through any argument; reads
/// and writes both count as touches.
pub open spec fn node_touches(n: NodeInfo, rid: int) -> bool {
    touches_prefix(n, rid, n.accesses@.len() as int)
}

/// Whether node `p` touches the resource within the processed region:
/// nodes before `i` entirely, and the first `k` arguments of node `i`.
pub open spec fn touch_upto(nodes: Seq<NodeInfo>, rid: int, i: int, k: int, p: int) -> bool {
    (0 <= p < i && node_touches(nodes[p], rid)) || (p == i && touches_prefix(nodes[i], rid, k))
}

/// Computes the access interval of every resource: the least and greatest
/// position, under the given node ordering, of a node touching it, or
/// `None` for a resource no node touches.
pub fn compute_lifetimes(g: &RenderGraphBuilder, position: &Vec<usize>) -> (r: Vec<
    Option<LifetimeInterval>,
>)
    requires
        crate::graph::graph_wf(*g),
        position@.len() == g.nodes@.len(),
        forall|p: int| 0 <= p < position@.len() ==> #[trigger] position@[p] < 0xFFFF_FFFF,
    ensures
        r@.len() == g.resources@.len(),
        forall|rid: int, p: int|
            0 <= rid < g.resources@.len() && 0 <= p < g.nodes@.len() && node_touches(
                #[trigger] g.nodes@[p],
                rid,
            ) ==> (#[trigger] r@[rid]) is Some && r@[rid]->0.first <= position@[p] && position@[p]
                <= r@[rid]->0.last,
        forall|rid: int|
            0 <= rid < g.resources@.len() && (#[trigger] r@[rid]) is Some ==> (exists|p: int|
                0 <= p < g.nodes@.len() && #[trigger] node_touches(g.nodes@[p], rid) && position@[p]
                    == r@[rid]->0.first) && (exists|p: int|
                0 <= p < g.nodes@.len() && #[trigger] node_touches(g.nodes@[p], rid) && position@[p]
                    == r@[rid]->0.last),
{
    let num_r = g.resources.len();
    let n = g.nodes.len();
    let mut r: Vec<Option<LifetimeInterval>> = Vec::new();
    while r.len() < num_r
        invariant
            r@.len() <= num_r,
            forall|rid: int| 0 <= rid < r@.len() ==> (#[trigger] r@[rid]) is None,
        decreases num_r - r@.len(),
    {
        r.push(None);
    }
    let mut i: usize = 0;
    while i < n
        invariant
            crate::graph::graph_wf(*g),
            n == g.nodes@.len(),
            position@.len() == n,
            forall|p: int| 0 <= p < position@.len() ==> #[trigger] position@[p] < 0xFFFF_FFFF,
            num_r == g.resources@.len(),
            r@.len() == num_r,
            0 <= i <= n,
            forall|rid: int, p: int|
                0 <= rid < num_r && #[trigger] touch_upto(g.nodes@, rid, i as int, 0, p) ==> r@[rid] is Some && r@[rid]->0.first <= position@[p] && position@[p]
                    <= r@[rid]->0.last,
            forall|rid: int|
                0 <= rid < num_r && (#[trigger] r@[rid]) is Some ==> (exists|p: int|
                    #[trigger] touch_upto(g.nodes@, rid, i as int, 0, p) && position@[p]
                        == r@[rid]->0.first) && (exists|p: int|
                    #[trigger] touch_upto(g.nodes@, rid, i as int, 0, p) && position@[p]
                        == r@[rid]->0.last),
        decreases n - i,
    {
        let node = &g.nodes[i];
        let pos_u = position[i];
        let mut k: usize = 0;
        while k < node.accesses.len()
            invariant
                crate::graph::graph_wf(*g),
                n == g.nodes@.len(),
                position@.len() == n,
                forall|p: int| 0 <= p < position@.len() ==> #[trigger] position@[p] < 0xFFFF_FFFF,
                num_r == g.resources@.len(),
                r@.len() == num_r,
                0 <= i < n,
                0 <= k <= node.accesses@.len(),
                *node == g.nodes@[i as int],
                pos_u == position@[i as int],
                forall|rid: int, p: int|
                    0 <= rid < num_r && #[trigger] touch_upto(g.nodes@, rid, i as int, k as int, p) ==> r@[rid] is Some && r@[rid]->0.first <= position@[p] && position@[p]
                        <= r@[rid]->0.last,
                forall|rid: int|
                    0 <= rid < num_r && (#[trigger] r@[rid]) is Some ==> (exists|p: int|
                        #[trigger] touch_upto(g.nodes@, rid, i as int, k as int, p) && position@[p]
                            == r@[rid]->0.first) && (exists|p: int|
                        #[trigger] touch_upto(g.nodes@, rid, i as int, k as int, p) && position@[p]
                            == r@[rid]->0.last),
            decreases node.accesses@.len() - k,
        {
            proof {
                assert(crate::graph::node_wf(g.resources@, g.nodes@[i as int]));
                assert(crate::graph::access_valid(
                    g.resources@,
                    g.nodes@[i as int].accesses@[k as int],
                ));
            }
            let rid = node.accesses[k].resource_id as usize;
            let pos = pos_u as u32;
            let ghost r0 = r@;
            match r[rid] {
                None => {
                    r[rid] = Some(LifetimeInterval { first: pos, last: pos });
                },
                Some(l) => {
                    let first = if pos < l.first {
                        pos
                    } else {
                        l.first
                    };
                    let last = if pos > l.last {
                        pos
                    } else {
                        l.last
                    };
                    r[rid] = Some(LifetimeInterval { first, last });
                },
            }
            proof {
                let nodes = g.nodes@;
                let ii = i as int;
                let kk = k as int;
                assert(nodes[ii].accesses@[kk].resource_id == rid);
                assert(touches_prefix(nodes[ii], rid as int, kk + 1));
                assert(touch_upto(nodes, rid as int, ii, kk + 1, ii));
                assert forall|rid2: int, p: int|
                    0 <= rid2 < num_r && #[trigger] touch_upto(nodes, rid2, ii, kk + 1, p) implies r@[rid2] is Some && r@[rid2]->0.first <= position@[p] && position@[p]
                    <= r@[rid2]->0.last by {
                    if touch_upto(nodes, rid2, ii, kk, p) {
                        assert(r0[rid2] is Some && r0[rid2]->0.first <= position@[p]
                            && position@[p] <= r0[rid2]->0.last);
                        if rid2 != rid {
                            assert(r@[rid2] == r0[rid2]);
                        }
                    } else {
                        assert(p == ii && touches_prefix(nodes[ii], rid2, kk + 1));
                        let t = choose|t: int|
                            0 <= t < kk + 1 && (#[trigger] nodes[ii].accesses@[t]).resource_id
                                == rid2;
                        assert(t == kk);
                        assert(rid2 == rid);
                    }
                }
                assert forall|rid2: int|
                    0 <= rid2 < num_r && (#[trigger] r@[rid2]) is Some implies (exists|p: int|
                    #[trigger] touch_upto(nodes, rid2, ii, kk + 1, p) && position@[p]
                        == r@[rid2]->0.first) && (exists|p: int|
                    #[trigger] touch_upto(nodes, rid2, ii, kk + 1, p) && position@[p]
                        == r@[rid2]->0.last) by {
                    if rid2 == rid as int {
                        if r0[rid2] is Some {
                            let l = r0[rid2]->0;
                            if r@[rid2]->0.first == pos {
                                assert(touch_upto(nodes, rid2, ii, kk + 1, ii) && position@[ii]
                                    == r@[rid2]->0.first);
                            } else {
                                let pw = choose|p: int|
                                    #[trigger] touch_upto(nodes, rid2, ii, kk, p) && position@[p]
                                        == r0[rid2]->0.first;
                                assert(touch_upto(nodes, rid2, ii, kk + 1, pw) && position@[pw]
                                    == r@[rid2]->0.first);
                            }
                            if r@[rid2]->0.last == pos {
                                assert(touch_upto(nodes, rid2, ii, kk + 1, ii) && position@[ii]
                                    == r@[rid2]->0.last);
                            } else {
                                let pw = choose|p: int|
                                    #[trigger] touch_upto(nodes, rid2, ii, kk, p) && position@[p]
                                        == r0[rid2]->0.last;
                                assert(touch_upto(nodes, rid2, ii, kk + 1, pw) && position@[pw]
                                    == r@[rid2]->0.last);
                            }
                        } else {
                            assert(touch_upto(nodes, rid2, ii, kk + 1, ii) && position@[ii]
                                == r@[rid2]->0.first && position@[ii] == r@[rid2]->0.last);
                        }
                    } else {
                        assert(r@[rid2] == r0[rid2]);
                        let pw1 = choose|p: int|
                            #[trigger] touch_upto(nodes, rid2, ii, kk, p) && position@[p]
                                == r0[rid2]->0.first;
                        assert(touch_upto(nodes, rid2, ii, kk + 1, pw1));
                        let pw2 = choose|p: int|
                            #[trigger] touch_upto(nodes, rid2, ii, kk, p) && position@[p]
                                == r0[rid2]->0.last;
                        assert(touch_upto(nodes, rid2, ii, kk + 1, pw2));
                    }
                }
            }
            k = k + 1;
        }
        proof {
            let nodes = g.nodes@;
            let ii = i as int;
            let kk = k as int;
            assert forall|rid2: int, p: int|
                0 <= rid2 < num_r && #[trigger] touch_upto(nodes, rid2, ii + 1, 0, p) implies touch_upto(
                nodes,
                rid2,
                ii,
                kk,
                p,
            ) by {
                if p == ii {
                    assert(node_touches(nodes[ii], rid2));
                    assert(touches_prefix(nodes[ii], rid2, kk));
                }
            }
            assert forall|rid2: int, p: int|
                0 <= rid2 < num_r && #[trigger] touch_upto(nodes, rid2, ii, kk, p) implies touch_upto(
                nodes,
                rid2,
                ii + 1,
                0,
                p,
            ) by {
                if p == ii {
                    assert(touches_prefix(nodes[ii], rid2, kk));
                    assert(node_touches(nodes[ii], rid2));
                }
            }
            assert forall|rid2: int|
                0 <= rid2 < num_r && (#[trigger] r@[rid2]) is Some implies (exists|p: int|
                #[trigger] touch_upto(nodes, rid2, ii + 1, 0, p) && position@[p]
                    == r@[rid2]->0.first) && (exists|p: int|
                #[trigger] touch_upto(nodes, rid2, ii + 1, 0, p) && position@[p]
                    == r@[rid2]->0.last) by {
                let pw1 = choose|p: int|
                    #[trigger] touch_upto(nodes, rid2, ii, kk, p) && position@[p]
                        == r@[rid2]->0.first;
                assert(touch_upto(nodes, rid2, ii + 1, 0, pw1));
                let pw2 = choose|p: int|
                    #[trigger] touch_upto(nodes, rid2, ii, kk, p) && position@[p]
                        == r@[rid2]->0.last;
                assert(touch_upto(nodes, rid2, ii + 1, 0, pw2));
            }
        }
        i = i + 1;
    }
    proof {
        let nodes = g.nodes@;
        assert forall|rid: int, p: int|
            0 <= rid < num_r && 0 <= p < nodes.len() && node_touches(
                #[trigger] nodes[p],
                rid,
            ) implies (#[trigger] r@[rid]) is Some && r@[rid]->0.first <= position@[p]
            && position@[p] <= r@[rid]->0.last by {
            assert(touch_upto(nodes, rid, i as int, 0, p));
        }
        assert forall|rid: int|
            0 <= rid < num_r && (#[trigger] r@[rid]) is Some implies (exists|p: int|
            0 <= p < nodes.len() && #[trigger] node_touches(nodes[p], rid) && position@[p]
                == r@[rid]->0.first) && (exists|p: int|
            0 <= p < nodes.len() && #[trigger] node_touches(nodes[p], rid) && position@[p]
                == r@[rid]->0.last) by {
            let pw1 = choose|p: int|
                #[trigger] touch_upto(nodes, rid, i as int, 0, p) && position@[p]
                    == r@[rid]->0.first;
            assert(node_touches(nodes[pw1], rid));
            let pw2 = choose|p: int|
                #[trigger] touch_upto(nodes, rid, i as int, 0, p) && position@[p]
                    == r@[rid]->0.last;
            assert(node_touches(nodes[pw2], rid));
        }
    }
    r
}

} // verus!
