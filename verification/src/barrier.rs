//! The transition generator: computes the resource-state barriers between
//! producing and consuming nodes of a scheduled graph.
//!
//! For every touch of a resource, the latest earlier touch on an
//! overlapping subresource range holds the resource's previous state; when
//! the pair hazards — the touches carry a dependency edge — and the
//! access attributes differ, a transition command is emitted immediately
//! before the consuming touch. Touches on disjoint ranges keep
//! independent states, and overlapping pure reads reorder freely; neither
//! produces a transition.

use vstd::prelude::*;

use crate::access::AccessAttr;
use crate::graph::{NodeInfo, RenderGraphBuilder};
use crate::resource::{ranges_overlap, subresource_ranges_overlap, SubresourceRange};

verus! {

/// The reserved command index meaning "no command".
pub const CMD_ID_INVALID: u32 = 0xFFFF_FFFF;

/// Diagnostic payload of a command that is not a transition.
#[derive(Clone, Copy, Debug, PartialEq, Eq, Structural)]
pub struct CmdDiagnosticInfoTransitionCmd {
    pub dummy: u32,
}

/// One resource-state transition: the previous and next access, the
/// subresource range it covers, and the resource it belongs to.
#[derive(Clone, Copy, Debug, PartialEq, Eq, Structural)]
pub struct CmdDiagnosticInfoTransitionTransition {
    pub prev_access: AccessAttr,
    pub next_access: AccessAttr,
    pub range: SubresourceRange,
    pub resource_index: u32,
}

/// One diagnostic command record: the position it precedes, and its
/// transition payload when it is a transition.
#[derive(Clone, Copy, Debug, PartialEq, Eq)]
pub struct CmdDiagnosticInfo {
    pub cmd_index: u32,
    pub transition: Option<CmdDiagnosticInfoTransitionTransition>,
}

/// One touch of a resource: the scheduled position of the touching node,
/// and the access and range it used.
#[derive(Clone, Copy, Debug, PartialEq, Eq, Structural)]
pub struct ResourceTouch {
    pub pos: u32,
    pub access: AccessAttr,
    pub range: SubresourceRange,
}

/// The touches of resource `rid` among the first `k` arguments of one
/// node standing at position `pos`.
pub open spec fn node_touch_list(n: NodeInfo, rid: int, pos: u32, k: int) -> Seq<ResourceTouch>
    decreases k,
{
    if k <= 0 {
        Seq::empty()
    } else {
        node_touch_list(n, rid, pos, k - 1) + (if n.accesses@[k - 1].resource_id == rid {
            seq![
                ResourceTouch {
                    pos,
                    access: n.accesses@[k - 1].access,
                    range: n.accesses@[k - 1].range,
                },
            ]
        } else {
            Seq::empty()
        })
    }
}

/// The touches of resource `rid` by the nodes at the first `p` scheduled
/// positions, in scheduled order.
pub open spec fn touch_list(
    nodes: Seq<NodeInfo>,
    order: Seq<usize>,
    rid: int,
    p: int,
) -> Seq<ResourceTouch>
    decreases p,
{
    if p <= 0 {
        Seq::empty()
    } else {
        touch_list(nodes, order, rid, p - 1) + node_touch_list(
            nodes[order[p - 1] as int],
            rid,
            (p - 1) as u32,
            nodes[order[p - 1] as int].accesses@.len() as int,
        )
    }
}

/// The latest touch index at or below `j` whose range overlaps that of
/// touch `k`, or -1 when none does.
pub open spec fn latest_overlap(touches: Seq<ResourceTouch>, k: int, j: int) -> int
    decreases j + 1,
{
    if j < 0 {
        -1
    } else if ranges_overlap(touches[j].range, touches[k].range) {
        j
    } else {
        latest_overlap(touches, k, j - 1)
    }
}

/// The transition the `k`-th touch of resource `rid` requires, if any: its
/// range's latest overlapping predecessor holds the previous state, and a
/// transition is due exactly when the pair hazards — a dependency edge
/// exists — and that state differs from the new one. Overlapping pure
/// reads reorder freely and never transition.
pub open spec fn emit_at(rid: u32, touches: Seq<ResourceTouch>, k: int) -> Option<
    CmdDiagnosticInfo,
> {
    let j = latest_overlap(touches, k, k - 1);
    if j >= 0 && crate::access::accesses_hazard(touches[j].access, touches[k].access)
        && touches[j].access != touches[k].access {
        Some(
            CmdDiagnosticInfo {
                cmd_index: touches[k].pos,
                transition: Some(
                    CmdDiagnosticInfoTransitionTransition {
                        prev_access: touches[j].access,
                        next_access: touches[k].access,
                        range: touches[k].range,
                        resource_index: rid,
                    },
                ),
            },
        )
    } else {
        None
    }
}

/// The transitions of resource `rid` due before its first `k` touches, in
/// touch order.
pub open spec fn transitions_of(rid: u32, touches: Seq<ResourceTouch>, k: int) -> Seq<
    CmdDiagnosticInfo,
>
    decreases k,
{
    if k <= 0 {
        Seq::empty()
    } else {
        transitions_of(rid, touches, k - 1) + (match emit_at(rid, touches, k - 1) {
            Some(t) => seq![t],
            None => Seq::empty(),
        })
    }
}

/// The transitions of the whole schedule: those of every resource below
/// `rid_count`, grouped by resource in identity order.
pub open spec fn all_transitions(
    nodes: Seq<NodeInfo>,
    order: Seq<usize>,
    rid_count: int,
) -> Seq<CmdDiagnosticInfo>
    decreases rid_count,
{
    if rid_count <= 0 {
        Seq::empty()
    } else {
        all_transitions(nodes, order, rid_count - 1) + transitions_of(
            (rid_count - 1) as u32,
            touch_list(nodes, order, rid_count - 1, order.len() as int),
            touch_list(nodes, order, rid_count - 1, order.len() as int).len() as int,
        )
    }
}

/// Collects the touches of resource `rid` in scheduled order.
pub fn collect_touches(g: &RenderGraphBuilder, order: &Vec<usize>, rid: u32) -> (r: Vec<
    ResourceTouch,
>)
    requires
        forall|p: int| 0 <= p < order@.len() ==> (#[trigger] order@[p]) < g.nodes@.len(),
        order@.len() < 0xFFFF_FFFF,
    ensures
        r@ == touch_list(g.nodes@, order@, rid as int, order@.len() as int),
{
    let mut r: Vec<ResourceTouch> = Vec::new();
    let mut p: usize = 0;
    while p < order.len()
        invariant
            forall|p2: int| 0 <= p2 < order@.len() ==> (#[trigger] order@[p2]) < g.nodes@.len(),
            order@.len() < 0xFFFF_FFFF,
            0 <= p <= order@.len(),
            r@ == touch_list(g.nodes@, order@, rid as int, p as int),
        decreases order@.len() - p,
    {
        let node = &g.nodes[order[p]];
        let mut k: usize = 0;
        while k < node.accesses.len()
            invariant
                forall|p2: int| 0 <= p2 < order@.len() ==> (#[trigger] order@[p2]) < g.nodes@.len(),
                order@.len() < 0xFFFF_FFFF,
                0 <= p < order@.len(),
                0 <= k <= node.accesses@.len(),
                *node == g.nodes@[order@[p as int] as int],
                r@ == touch_list(g.nodes@, order@, rid as int, p as int) + node_touch_list(
                    *node,
                    rid as int,
                    p as u32,
                    k as int,
                ),
            decreases node.accesses@.len() - k,
        {
            let a = &node.accesses[k];
            if a.resource_id == rid {
                r.push(ResourceTouch { pos: p as u32, access: a.access, range: a.range });
            }
            k = k + 1;
        }
        p = p + 1;
    }
    r
}

/// Computes the transitions resource `rid` requires, given its touches in
/// scheduled order.
pub fn resource_transitions(rid: u32, touches: &Vec<ResourceTouch>) -> (r: Vec<CmdDiagnosticInfo>)
    ensures
        r@ == transitions_of(rid, touches@, touches@.len() as int),
{
    let mut r: Vec<CmdDiagnosticInfo> = Vec::new();
    let mut k: usize = 0;
    while k < touches.len()
        invariant
            0 <= k <= touches@.len(),
            r@ == transitions_of(rid, touches@, k as int),
        decreases touches@.len() - k,
    {
        let mut found: Option<usize> = None;
        let mut jj: usize = k;
        while jj > 0 && found.is_none()
            invariant
                0 <= jj <= k < touches@.len(),
                match found {
                    None => latest_overlap(touches@, k as int, jj as int - 1) == latest_overlap(
                        touches@,
                        k as int,
                        k as int - 1,
                    ),
                    Some(j) => j == latest_overlap(touches@, k as int, k as int - 1) && 0 <= j < k,
                },
            decreases jj,
        {
            jj = jj - 1;
            if subresource_ranges_overlap(&touches[jj].range, &touches[k].range) {
                found = Some(jj);
            }
        }
        match found {
            None => {
                proof {
                    assert(latest_overlap(touches@, k as int, -1) == -1);
                }
            },
            Some(j) => {
                if crate::access::accesses_hazard_exec(&touches[j].access, &touches[k].access)
                    && !(touches[j].access == touches[k].access) {
                    r.push(
                        CmdDiagnosticInfo {
                            cmd_index: touches[k].pos,
                            transition: Some(
                                CmdDiagnosticInfoTransitionTransition {
                                    prev_access: touches[j].access,
                                    next_access: touches[k].access,
                                    range: touches[k].range,
                                    resource_index: rid,
                                },
                            ),
                        },
                    );
                }
            },
        }
        k = k + 1;
    }
    r
}

/// Computes every transition of the schedule, grouped by resource.
pub fn generate_transitions(g: &RenderGraphBuilder, order: &Vec<usize>) -> (r: Vec<
    CmdDiagnosticInfo,
>)
    requires
        forall|p: int| 0 <= p < order@.len() ==> (#[trigger] order@[p]) < g.nodes@.len(),
        order@.len() < 0xFFFF_FFFF,
        g.resources@.len() <= 0xFFFF_FFFF,
    ensures
        r@ == all_transitions(g.nodes@, order@, g.resources@.len() as int),
{
    let mut r: Vec<CmdDiagnosticInfo> = Vec::new();
    let mut rid: usize = 0;
    while rid < g.resources.len()
        invariant
            forall|p: int| 0 <= p < order@.len() ==> (#[trigger] order@[p]) < g.nodes@.len(),
            order@.len() < 0xFFFF_FFFF,
            0 <= rid <= g.resources@.len(),
            g.resources@.len() <= 0xFFFF_FFFF,
            r@ == all_transitions(g.nodes@, order@, rid as int),
        decreases g.resources@.len() - rid,
    {
        let touches = collect_touches(g, order, rid as u32);
        let mut part = resource_transitions(rid as u32, &touches);
        r.append(&mut part);
        rid = rid + 1;
    }
    r
}

/// The write-then-read round trip: a graph that declares one resource,
/// writes a subresource range in its first node and reads the same range
/// in its second produces exactly one hazard edge, is scheduled exactly in
/// program order, and emits exactly one transition, from the writing
/// access to the reading one, before the reader.
pub proof fn lemma_write_read_round_trip(
    g: RenderGraphBuilder,
    d: crate::analyze::DependencyGraph,
    s: crate::schedule::ScheduleOutput,
    trans: Seq<CmdDiagnosticInfo>,
    a0: crate::graph::ResourceAccessInfo,
    a1: crate::graph::ResourceAccessInfo,
)
    requires
        g.nodes@.len() == 2,
        g.resources@.len() == 1,
        g.nodes@[0].accesses@ =~= seq![a0],
        g.nodes@[1].accesses@ =~= seq![a1],
        a0.resource_id == 0,
        a1.resource_id == 0,
        a1.range == a0.range,
        crate::resource::range_nonempty(a0.range),
        crate::access::accesses_hazard(a0.access, a1.access),
        a0.access != a1.access,
        crate::analyze::dag_matches(g.nodes@, d),
        crate::analyze::dag_wf(d),
        crate::schedule::valid_schedule(d, s),
        trans == all_transitions(g.nodes@, s.order@, 1),
    ensures
        d.edges@ =~= seq![(0usize, 1usize)],
        s.order@ =~= seq![0usize, 1usize],
        trans =~= seq![
            CmdDiagnosticInfo {
                cmd_index: 1,
                transition: Some(
                    CmdDiagnosticInfoTransitionTransition {
                        prev_access: a0.access,
                        next_access: a1.access,
                        range: a0.range,
                        resource_index: 0,
                    },
                ),
            },
        ],
{
    let nodes = g.nodes@;
    // the two nodes hazard: the same non-empty range is written then read
    assert(ranges_overlap(a0.range, a1.range));
    assert(crate::analyze::touches_conflict(a0, a1));
    assert(crate::analyze::nodes_conflict(nodes[0], nodes[1])) by {
        assert(nodes[0].accesses@[0] == a0 && nodes[1].accesses@[0] == a1);
    }
    assert(crate::analyze::dep_edge(nodes, 0, 1));
    // so the edge list is exactly that one pair
    assert(crate::analyze::edge_in(d.edges@, 0, 1));
    assert forall|k: int| 0 <= k < d.edges@.len() implies (#[trigger] d.edges@[k]) == (
    0usize,
    1usize,
    ) by {
        assert(crate::analyze::dep_edge(nodes, d.edges@[k].0 as int, d.edges@[k].1 as int));
    }
    assert(d.edges@.len() >= 1) by {
        let k = choose|k: int|
            0 <= k < d.edges@.len() && (#[trigger] d.edges@[k]).0 == 0 && d.edges@[k].1 == 1;
    }
    assert(d.edges@.len() <= 1) by {
        if d.edges@.len() >= 2 {
            assert(crate::analyze::edge_lex_less(d.edges@[0], d.edges@[1]));
        }
    }
    assert(d.edges@ =~= seq![(0usize, 1usize)]);
    // any valid schedule of that edge keeps program order
    let k0 = choose|k: int|
        0 <= k < d.edges@.len() && (#[trigger] d.edges@[k]).0 == 0 && d.edges@[k].1 == 1;
    assert(s.position@[0] < s.position@[1]);
    assert(s.position@[0] == 0 && s.position@[1] == 1);
    assert(s.order@[0] == 0 && s.order@[1] == 1);
    assert(s.order@ =~= seq![0usize, 1usize]);
    // unfold the touch list of the single resource
    let o = s.order@;
    let t0 = ResourceTouch { pos: 0, access: a0.access, range: a0.range };
    let t1 = ResourceTouch { pos: 1, access: a1.access, range: a1.range };
    assert(node_touch_list(nodes[0], 0, 0u32, 0) =~= Seq::<ResourceTouch>::empty());
    assert(node_touch_list(nodes[0], 0, 0u32, 1) =~= seq![t0]) by {
        assert(nodes[0].accesses@[0] == a0);
    }
    assert(node_touch_list(nodes[1], 0, 1u32, 0) =~= Seq::<ResourceTouch>::empty());
    assert(node_touch_list(nodes[1], 0, 1u32, 1) =~= seq![t1]) by {
        assert(nodes[1].accesses@[0] == a1);
    }
    let touches = touch_list(nodes, o, 0, 2);
    assert(touch_list(nodes, o, 0, 0) =~= Seq::<ResourceTouch>::empty());
    assert(o[0] == 0 && o[1] == 1);
    assert(nodes[o[0] as int].accesses@.len() == 1);
    assert(touch_list(nodes, o, 0, 1) =~= seq![t0]);
    assert(touches =~= seq![t0, t1]);
    // exactly one transition: the read after the overlapping write
    assert(latest_overlap(touches, 0, -1) == -1);
    assert(emit_at(0, touches, 0) is None);
    assert(latest_overlap(touches, 1, 0) == 0) by {
        assert(ranges_overlap(touches[0].range, touches[1].range));
    }
    let expect = CmdDiagnosticInfo {
        cmd_index: 1,
        transition: Some(
            CmdDiagnosticInfoTransitionTransition {
                prev_access: a0.access,
                next_access: a1.access,
                range: a0.range,
                resource_index: 0,
            },
        ),
    };
    assert(emit_at(0, touches, 1) == Some(expect));
    assert(transitions_of(0, touches, 0) =~= Seq::<CmdDiagnosticInfo>::empty());
    assert(transitions_of(0, touches, 1) =~= Seq::<CmdDiagnosticInfo>::empty());
    assert(transitions_of(0, touches, 2) =~= seq![expect]);
    assert(all_transitions(nodes, o, 0) =~= Seq::<CmdDiagnosticInfo>::empty());
    assert(touches.len() == 2);
    assert(all_transitions(nodes, o, 1) =~= seq![expect]);
}

} // verus!
