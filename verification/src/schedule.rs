//! The scheduler: orders the nodes of a dependency DAG into a linear
//! command order and groups them into per-queue batches linked by fences.
//!
//! The produced order is always a topological order of the DAG. Among the
//! nodes that are ready at each step the tie-break is selectable: program
//! order (the least node identity), a memory-saving score, staying on the
//! current queue class, or a deterministic pseudo-random draw. A graph
//! whose edge relation admits no topological order is rejected with
//! `InvalidProgram`, and the scheduler returns a certificate: a non-empty
//! set of nodes each depending on another unscheduled member of the set.

use vstd::prelude::*;
use vstd::set_lib::lemma_subset_equality;
use vstd::set_lib::lemma_int_range;
use vstd::set_lib::set_int_range;

use crate::analyze::DependencyGraph;
use crate::result::RpsError;

verus! {

/// Flags steering one schedule pass.
pub type ScheduleFlags = u32;

pub const SCHEDULE_UNSPECIFIED: ScheduleFlags = 0;
pub const SCHEDULE_KEEP_PROGRAM_ORDER: ScheduleFlags = 1u32 << 0;
pub const SCHEDULE_PREFER_MEMORY_SAVING: ScheduleFlags = 1u32 << 1;
pub const SCHEDULE_RANDOM_ORDER: ScheduleFlags = 1u32 << 2;
pub const SCHEDULE_MINIMIZE_COMPUTE_GFX_SWITCH: ScheduleFlags = 1u32 << 3;
pub const SCHEDULE_DISABLE_DEAD_CODE_ELIMINATION: ScheduleFlags = 1u32 << 4;
pub const SCHEDULE_ALLOW_SPLIT_BARRIERS: ScheduleFlags = 1u32 << 5;
pub const SCHEDULE_AVOID_RESCHEDULE: ScheduleFlags = 1u32 << 6;
pub const SCHEDULE_ALLOW_FRAME_OVERLAP: ScheduleFlags = 1u32 << 7;
pub const SCHEDULE_DEFAULT: ScheduleFlags = 0;

/// Whether every edge endpoint lies within the node range.
pub open spec fn edges_in_bounds(d: DependencyGraph) -> bool {
    forall|k: int|
        0 <= k < d.edges@.len() ==> (#[trigger] d.edges@[k]).0 < d.num_nodes && d.edges@[k].1
            < d.num_nodes
}

/// A computed node order: the node at each position, and the position of
/// each node.
pub struct ScheduleOutput {
    pub order: Vec<usize>,
    pub position: Vec<usize>,
}

/// Whether the output is a permutation of the `n` nodes, with `order` and
/// `position` inverse to each other.
pub open spec fn is_permutation(s: ScheduleOutput, n: int) -> bool {
    &&& s.order@.len() == n
    &&& s.position@.len() == n
    &&& forall|p: int| 0 <= p < n ==> (#[trigger] s.order@[p]) < n
    &&& forall|v: int|
        0 <= v < n ==> (#[trigger] s.position@[v]) < n && s.order@[s.position@[v] as int] == v
    &&& forall|p: int| 0 <= p < n ==> s.position@[(#[trigger] s.order@[p]) as int] == p
}

/// Whether the order respects every edge: the source of each edge stands
/// at an earlier position than its target.
pub open spec fn respects_dag(s: ScheduleOutput, d: DependencyGraph) -> bool {
    forall|k: int|
        0 <= k < d.edges@.len() ==> s.position@[(#[trigger] d.edges@[k]).0 as int]
            < s.position@[d.edges@[k].1 as int]
}

/// A valid schedule: a permutation of the nodes in topological order.
pub open spec fn valid_schedule(d: DependencyGraph, s: ScheduleOutput) -> bool {
    is_permutation(s, d.num_nodes as int) && respects_dag(s, d)
}

/// Whether node `v` stands somewhere in the first `p` positions.
pub open spec fn placed_before(o: Seq<usize>, p: int, v: int) -> bool {
    exists|q: int| 0 <= q < p && (#[trigger] o[q]) == v
}

/// Whether node `v` could be emitted at position `p` of the order: not yet
/// placed, with every dependency source already placed.
pub open spec fn ready_at(d: DependencyGraph, o: Seq<usize>, p: int, v: int) -> bool {
    &&& 0 <= v < d.num_nodes
    &&& !placed_before(o, p, v)
    &&& forall|k: int|
        0 <= k < d.edges@.len() && (#[trigger] d.edges@[k]).1 == v ==> placed_before(
            o,
            p,
            d.edges@[k].0 as int,
        )
}

/// The program-order tie-break, as a property of the whole order: at every
/// position the emitted node is the least ready one. Exactly one
/// topological order of a DAG has this property, which makes the
/// `KEEP_PROGRAM_ORDER` schedule canonical.
pub open spec fn is_program_order_schedule(d: DependencyGraph, o: Seq<usize>) -> bool {
    forall|p: int, v: int| 0 <= p < o.len() && #[trigger] ready_at(d, o, p, v) ==> o[p] <= v
}

/// How many nodes below `v` are ready at position `p` of the order.
pub open spec fn ready_count_at(d: DependencyGraph, o: Seq<usize>, p: int, v: int) -> int
    decreases v,
{
    if v <= 0 {
        0
    } else {
        ready_count_at(d, o, p, v - 1) + if ready_at(d, o, p, v - 1) {
            1int
        } else {
            0int
        }
    }
}

/// One advance of the xorshift pseudo-random state.
pub open spec fn next_random_of(state: u64) -> u64 {
    let x0 = state | 1;
    let x1 = x0 ^ (x0 << 13);
    let x2 = x1 ^ (x1 >> 7);
    x2 ^ (x2 << 17)
}

/// The pseudo-random state after `p` advances of the seed.
pub open spec fn rng_state_at(seed: u64, p: int) -> u64
    decreases p,
{
    if p <= 0 {
        seed
    } else {
        next_random_of(rng_state_at(seed, p - 1))
    }
}

/// The seeded random tie-break, as a property of the whole order: at every
/// position, among the `cnt` ready nodes, the emitted one is the node
/// selected by the position-th draw of the seed. Together with validity
/// this pins the whole order, so equal seeds reproduce equal schedules.
pub open spec fn is_seeded_random_schedule(d: DependencyGraph, o: Seq<usize>, seed: u64) -> bool {
    forall|p: int|
        0 <= p < o.len() ==> #[trigger] ready_count_at(d, o, p, o[p] as int) == rng_state_at(
            seed,
            p + 1,
        ) as int % ready_count_at(d, o, p, d.num_nodes as int)
}

/// Whether a flag combination selects the seeded random tie-break.
pub open spec fn random_order_selected(flags: ScheduleFlags) -> bool {
    flags & SCHEDULE_KEEP_PROGRAM_ORDER == 0 && flags & SCHEDULE_RANDOM_ORDER != 0
}

/// Whether a flag combination selects the program-order tie-break: either
/// explicitly, or by default when no other tie-break is chosen.
pub open spec fn program_order_selected(flags: ScheduleFlags) -> bool {
    flags & SCHEDULE_KEEP_PROGRAM_ORDER != 0 || flags & (SCHEDULE_RANDOM_ORDER
        | SCHEDULE_PREFER_MEMORY_SAVING | SCHEDULE_MINIMIZE_COMPUTE_GFX_SWITCH) == 0
}

/// Whether node `v` is ready against the scheduled marks: unscheduled,
/// with every dependency source scheduled.
pub open spec fn ready_in(d: DependencyGraph, scheduled: Seq<bool>, v: int) -> bool {
    &&& 0 <= v < d.num_nodes
    &&& !scheduled[v]
    &&& forall|k: int|
        0 <= k < d.edges@.len() && (#[trigger] d.edges@[k]).1 == v ==> scheduled[d.edges@[k].0 as int]
}

/// How many nodes below `v` are ready against the scheduled marks.
pub open spec fn ready_count_below(d: DependencyGraph, scheduled: Seq<bool>, v: int) -> int
    decreases v,
{
    if v <= 0 {
        0
    } else {
        ready_count_below(d, scheduled, v - 1) + if ready_in(d, scheduled, v - 1) {
            1int
        } else {
            0int
        }
    }
}

/// A certificate that no topological order exists: a non-empty set of
/// nodes, each of which depends on a member of the set.
pub open spec fn stuck_set(d: DependencyGraph, s: Set<int>) -> bool {
    &&& s.finite()
    &&& s.len() > 0
    &&& forall|v: int| s.contains(v) ==> 0 <= v < d.num_nodes
    &&& forall|v: int|
        #[trigger] s.contains(v) ==> exists|k: int|
            0 <= k < d.edges@.len() && (#[trigger] d.edges@[k]).1 == v && s.contains(
                d.edges@[k].0 as int,
            )
}

/// Whether node `v` is ready: unscheduled, with every dependency source
/// already scheduled.
pub fn is_ready(d: &DependencyGraph, scheduled: &Vec<bool>, v: usize) -> (r: bool)
    requires
        edges_in_bounds(*d),
        scheduled@.len() == d.num_nodes,
        v < d.num_nodes,
    ensures
        r == ready_in(*d, scheduled@, v as int),
{
    if scheduled[v] {
        return false;
    }
    let mut k: usize = 0;
    while k < d.edges.len()
        invariant
            edges_in_bounds(*d),
            scheduled@.len() == d.num_nodes,
            v < d.num_nodes,
            !scheduled@[v as int],
            0 <= k <= d.edges@.len(),
            forall|k2: int|
                0 <= k2 < k && (#[trigger] d.edges@[k2]).1 == v ==> scheduled@[d.edges@[k2].0 as int],
        decreases d.edges@.len() - k,
    {
        let (src, dst) = d.edges[k];
        if dst == v && !scheduled[src] {
            return false;
        }
        k = k + 1;
    }
    true
}

/// Finds the least ready node, or reports that none is ready.
fn pick_first_ready(d: &DependencyGraph, scheduled: &Vec<bool>) -> (r: Option<usize>)
    requires
        edges_in_bounds(*d),
        scheduled@.len() == d.num_nodes,
    ensures
        match r {
            Some(v) => ready_in(*d, scheduled@, v as int) && forall|w: int|
                0 <= w < v ==> !ready_in(*d, scheduled@, w),
            None => forall|w: int| 0 <= w < d.num_nodes ==> !ready_in(*d, scheduled@, w),
        },
{
    let mut v: usize = 0;
    while v < d.num_nodes
        invariant
            edges_in_bounds(*d),
            scheduled@.len() == d.num_nodes,
            0 <= v <= d.num_nodes,
            forall|w: int| 0 <= w < v ==> !ready_in(*d, scheduled@, w),
        decreases d.num_nodes - v,
    {
        if is_ready(d, scheduled, v) {
            return Some(v);
        }
        v = v + 1;
    }
    None
}

/// Advances the xorshift pseudo-random state; the draw sequence is a pure
/// function of the seed, keeping stress schedules reproducible.
fn next_random(state: u64) -> (r: u64)
    ensures
        r == next_random_of(state),
{
    let mut x = state | 1;
    x = x ^ (x << 13);
    x = x ^ (x >> 7);
    x ^ (x << 17)
}

/// Picks the ready node the draw selects: among `count` ready nodes, the
/// one preceded by exactly `draw % count` ready nodes; or reports that
/// none is ready.
fn pick_ready_random(d: &DependencyGraph, scheduled: &Vec<bool>, draw: u64) -> (r: Option<usize>)
    requires
        edges_in_bounds(*d),
        scheduled@.len() == d.num_nodes,
    ensures
        match r {
            Some(v) => ready_in(*d, scheduled@, v as int) && ready_count_below(
                *d,
                scheduled@,
                d.num_nodes as int,
            ) > 0 && ready_count_below(*d, scheduled@, v as int) == draw as int
                % ready_count_below(*d, scheduled@, d.num_nodes as int),
            None => forall|w: int| 0 <= w < d.num_nodes ==> !ready_in(*d, scheduled@, w),
        },
{
    let mut count: usize = 0;
    let mut v: usize = 0;
    while v < d.num_nodes
        invariant
            edges_in_bounds(*d),
            scheduled@.len() == d.num_nodes,
            0 <= v <= d.num_nodes,
            count <= v,
            count == ready_count_below(*d, scheduled@, v as int),
            count == 0 ==> forall|w: int| 0 <= w < v ==> !ready_in(*d, scheduled@, w),
        decreases d.num_nodes - v,
    {
        if is_ready(d, scheduled, v) {
            count = count + 1;
        }
        v = v + 1;
    }
    if count == 0 {
        return None;
    }
    let target = (draw % (count as u64)) as usize;
    let mut seen: usize = 0;
    v = 0;
    while v < d.num_nodes
        invariant
            edges_in_bounds(*d),
            scheduled@.len() == d.num_nodes,
            0 <= v <= d.num_nodes,
            count == ready_count_below(*d, scheduled@, d.num_nodes as int),
            count > 0,
            target as int == draw as int % count as int,
            target < count,
            seen == ready_count_below(*d, scheduled@, v as int),
            seen <= target,
        decreases d.num_nodes - v,
    {
        if is_ready(d, scheduled, v) {
            if seen == target {
                return Some(v);
            }
            seen = seen + 1;
        }
        v = v + 1;
    }
    proof {
        // the scan cannot run out: the target lies below the ready count
        assert(false);
    }
    None
}

/// Picks a ready node with the greatest score: the memory-saving tie-break
/// prefers nodes that free the most transient bytes.
fn pick_ready_max_score(d: &DependencyGraph, scheduled: &Vec<bool>, score: &Vec<u64>) -> (r: Option<
    usize,
>)
    requires
        edges_in_bounds(*d),
        scheduled@.len() == d.num_nodes,
        score@.len() == d.num_nodes,
    ensures
        match r {
            Some(v) => ready_in(*d, scheduled@, v as int),
            None => forall|w: int| 0 <= w < d.num_nodes ==> !ready_in(*d, scheduled@, w),
        },
{
    let mut best: Option<usize> = None;
    let mut v: usize = 0;
    while v < d.num_nodes
        invariant
            edges_in_bounds(*d),
            scheduled@.len() == d.num_nodes,
            score@.len() == d.num_nodes,
            0 <= v <= d.num_nodes,
            match best {
                Some(b) => ready_in(*d, scheduled@, b as int),
                None => forall|w: int| 0 <= w < v ==> !ready_in(*d, scheduled@, w),
            },
        decreases d.num_nodes - v,
    {
        if is_ready(d, scheduled, v) {
            best = match best {
                None => Some(v),
                Some(b) => if score[v] > score[b] {
                    Some(v)
                } else {
                    Some(b)
                },
            };
        }
        v = v + 1;
    }
    best
}

/// Picks a ready node on the wanted queue class if one exists, otherwise
/// the least ready node: the switch-minimizing tie-break.
fn pick_ready_prefer_class(
    d: &DependencyGraph,
    scheduled: &Vec<bool>,
    queue_class: &Vec<u32>,
    want: u32,
) -> (r: Option<usize>)
    requires
        edges_in_bounds(*d),
        scheduled@.len() == d.num_nodes,
        queue_class@.len() == d.num_nodes,
    ensures
        match r {
            Some(v) => ready_in(*d, scheduled@, v as int),
            None => forall|w: int| 0 <= w < d.num_nodes ==> !ready_in(*d, scheduled@, w),
        },
{
    let mut v: usize = 0;
    while v < d.num_nodes
        invariant
            edges_in_bounds(*d),
            scheduled@.len() == d.num_nodes,
            queue_class@.len() == d.num_nodes,
            0 <= v <= d.num_nodes,
        decreases d.num_nodes - v,
    {
        if queue_class[v] == want && is_ready(d, scheduled, v) {
            return Some(v);
        }
        v = v + 1;
    }
    pick_first_ready(d, scheduled)
}

/// Orders the nodes of the DAG into a topological order.
///
/// Among the ready nodes of each step, `KEEP_PROGRAM_ORDER` takes the
/// least node identity — that choice is canonical, so the clause below
/// pins the whole order and re-running an unchanged graph reproduces it.
/// Otherwise `RANDOM_ORDER` draws from the seed, `PREFER_MEMORY_SAVING`
/// takes the greatest memory score, `MINIMIZE_COMPUTE_GFX_SWITCH` stays on
/// the class of the previously emitted node, and the default is program
/// order; an earlier flag in this listing wins over a later one.
///
/// When the edge relation admits no topological order the pass fails with
/// `InvalidProgram` and there is a certificate: a non-empty set of nodes
/// each depending on another member, which no order can satisfy.
pub fn schedule_nodes(
    d: &DependencyGraph,
    flags: ScheduleFlags,
    queue_class: &Vec<u32>,
    mem_score: &Vec<u64>,
    seed: u64,
) -> (r: Result<ScheduleOutput, RpsError>)
    requires
        edges_in_bounds(*d),
        queue_class@.len() == d.num_nodes,
        mem_score@.len() == d.num_nodes,
    ensures
        match r {
            Ok(s) => valid_schedule(*d, s) && (program_order_selected(flags)
                ==> is_program_order_schedule(*d, s.order@)) && (random_order_selected(flags)
                ==> is_seeded_random_schedule(*d, s.order@, seed)),
            Err(e) => e == RpsError::InvalidProgram && exists|c: Set<int>| stuck_set(*d, c),
        },
{
    let n = d.num_nodes;
    let mut scheduled: Vec<bool> = Vec::new();
    while scheduled.len() < n
        invariant
            scheduled@.len() <= n,
            forall|v: int| 0 <= v < scheduled@.len() ==> !(#[trigger] scheduled@[v]),
        decreases n - scheduled@.len(),
    {
        scheduled.push(false);
    }
    let mut position: Vec<usize> = Vec::new();
    while position.len() < n
        invariant
            position@.len() <= n,
        decreases n - position@.len(),
    {
        position.push(0);
    }
    let mut order: Vec<usize> = Vec::new();
    let mut rng: u64 = seed;
    let mut last_class: u32 = 0;
    let ghost mut done = Set::<int>::empty();
    while order.len() < n
        invariant
            edges_in_bounds(*d),
            n == d.num_nodes,
            queue_class@.len() == n,
            mem_score@.len() == n,
            scheduled@.len() == n,
            position@.len() == n,
            order@.len() <= n,
            forall|v: int|
                0 <= v < n ==> (#[trigger] scheduled@[v]) == placed_before(
                    order@,
                    order@.len() as int,
                    v,
                ),
            forall|p: int| 0 <= p < order@.len() ==> (#[trigger] order@[p]) < n,
            forall|p: int|
                0 <= p < order@.len() ==> position@[(#[trigger] order@[p]) as int] == p,
            forall|p: int, k: int|
                0 <= p < order@.len() && 0 <= k < d.edges@.len() && (#[trigger] d.edges@[k]).1 == (
                #[trigger] order@[p]) ==> placed_before(order@, p, d.edges@[k].0 as int),
            program_order_selected(flags) ==> forall|p: int, v: int|
                0 <= p < order@.len() && #[trigger] ready_at(*d, order@, p, v) ==> order@[p] <= v,
            random_order_selected(flags) ==> rng == rng_state_at(seed, order@.len() as int),
            random_order_selected(flags) ==> forall|p: int|
                0 <= p < order@.len() ==> #[trigger] ready_count_at(*d, order@, p, order@[p] as int)
                    == rng_state_at(seed, p + 1) as int % ready_count_at(
                    *d,
                    order@,
                    p,
                    d.num_nodes as int,
                ),
            done.finite(),
            done.len() == order@.len(),
            forall|v: int| #[trigger] done.contains(v) == (0 <= v < n && scheduled@[v]),
        decreases n - order@.len(),
    {
        let pick: Option<usize> = if flags & SCHEDULE_KEEP_PROGRAM_ORDER != 0 {
            pick_first_ready(d, &scheduled)
        } else if flags & SCHEDULE_RANDOM_ORDER != 0 {
            rng = next_random(rng);
            pick_ready_random(d, &scheduled, rng)
        } else if flags & SCHEDULE_PREFER_MEMORY_SAVING != 0 {
            pick_ready_max_score(d, &scheduled, mem_score)
        } else if flags & SCHEDULE_MINIMIZE_COMPUTE_GFX_SWITCH != 0 {
            pick_ready_prefer_class(d, &scheduled, queue_class, last_class)
        } else {
            pick_first_ready(d, &scheduled)
        };
        match pick {
            None => {
                proof {
                    let rem = set_int_range(0, n as int).filter(|v: int| !scheduled@[v]);
                    lemma_int_range(0, n as int);
                    vstd::set_lib::lemma_len_subset(rem, set_int_range(0, n as int));
                    assert(order@.len() < n);
                    assert(exists|v: int| 0 <= v < n && !done.contains(v)) by {
                        if forall|v: int| 0 <= v < n ==> #[trigger] done.contains(v) {
                            assert(set_int_range(0, n as int).subset_of(done));
                            vstd::set_lib::lemma_len_subset(set_int_range(0, n as int), done);
                            assert(false);
                        }
                    }
                    let missing = choose|v: int| 0 <= v < n && !done.contains(v);
                    assert(rem.contains(missing));
                    if rem.len() == 0 {
                        rem.lemma_len0_is_empty();
                        assert(false);
                    }
                    assert forall|v: int| #[trigger] rem.contains(v) implies exists|k: int|
                        0 <= k < d.edges@.len() && (#[trigger] d.edges@[k]).1 == v && rem.contains(
                            d.edges@[k].0 as int,
                        ) by {
                        assert(0 <= v < n && !scheduled@[v]);
                        assert(!ready_in(*d, scheduled@, v));
                        let k = choose|k: int|
                            0 <= k < d.edges@.len() && (#[trigger] d.edges@[k]).1 == v
                                && !scheduled@[d.edges@[k].0 as int];
                        assert(rem.contains(d.edges@[k].0 as int));
                    }
                    assert(stuck_set(*d, rem));
                }
                return Err(RpsError::InvalidProgram);
            },
            Some(v) => {
                let ghost order0 = order@;
                let ghost scheduled0 = scheduled@;
                let ghost position0 = position@;
                let p_new = order.len();
                order.push(v);
                position[v] = p_new;
                scheduled[v] = true;
                last_class = queue_class[v];
                proof {
                    done = done.insert(v as int);
                    let len0 = order0.len() as int;
                    assert(order@ == order0.push(v));
                    assert(order@[len0] == v);
                    // placement facts carry over between the old and the
                    // extended order
                    assert forall|p: int, x: int|
                        0 <= p <= len0 implies placed_before(order@, p, x) == placed_before(
                        order0,
                        p,
                        x,
                    ) by {
                        if placed_before(order@, p, x) {
                            let q = choose|q: int| 0 <= q < p && (#[trigger] order@[q]) == x;
                            assert(order0[q] == x);
                        }
                        if placed_before(order0, p, x) {
                            let q = choose|q: int| 0 <= q < p && (#[trigger] order0[q]) == x;
                            assert(order@[q] == x);
                        }
                    }
                    assert(!scheduled0[v as int]);
                    assert(!placed_before(order0, len0, v as int));
                    // the freshly placed node was not in the old order, so
                    // old position entries survive the update
                    assert forall|v2: int|
                        0 <= v2 < n implies (#[trigger] scheduled@[v2]) == placed_before(
                        order@,
                        len0 + 1,
                        v2,
                    ) by {
                        if v2 == v as int {
                            assert(order@[len0] == v);
                            assert(placed_before(order@, len0 + 1, v2));
                        } else {
                            assert(scheduled@[v2] == scheduled0[v2]);
                            if placed_before(order@, len0 + 1, v2) {
                                let q = choose|q: int|
                                    0 <= q < len0 + 1 && (#[trigger] order@[q]) == v2;
                                assert(q < len0);
                                assert(placed_before(order0, len0, v2));
                            }
                            if placed_before(order0, len0, v2) {
                                let q = choose|q: int|
                                    0 <= q < len0 && (#[trigger] order0[q]) == v2;
                                assert(order@[q] == v2);
                            }
                        }
                    }
                    assert forall|p: int|
                        0 <= p < order@.len() implies position@[(#[trigger] order@[p]) as int]
                        == p by {
                        if p < len0 {
                            assert(order@[p] == order0[p]);
                            assert(order0[p] != v);
                            assert(position@[order0[p] as int] == position0[order0[p] as int]);
                        }
                    }
                    assert forall|p: int, k: int|
                        0 <= p < order@.len() && 0 <= k < d.edges@.len() && (
                        #[trigger] d.edges@[k]).1 == (#[trigger] order@[p]) implies placed_before(
                        order@,
                        p,
                        d.edges@[k].0 as int,
                    ) by {
                        if p < len0 {
                            assert(placed_before(order0, p, d.edges@[k].0 as int));
                        } else {
                            assert(order@[p] == v);
                            assert(ready_in(*d, scheduled0, v as int));
                            assert(scheduled0[d.edges@[k].0 as int]);
                            assert(placed_before(order0, len0, d.edges@[k].0 as int));
                        }
                    }
                    if random_order_selected(flags) {
                        assert forall|w: int|
                            0 <= w < n implies #[trigger] ready_in(*d, scheduled0, w) == ready_at(
                            *d,
                            order@,
                            len0,
                            w,
                        ) by {
                            if ready_in(*d, scheduled0, w) {
                                assert forall|k: int|
                                    0 <= k < d.edges@.len() && (#[trigger] d.edges@[k]).1
                                        == w implies placed_before(
                                    order@,
                                    len0,
                                    d.edges@[k].0 as int,
                                ) by {
                                    assert(scheduled0[d.edges@[k].0 as int]);
                                }
                                assert(ready_at(*d, order@, len0, w));
                            }
                            if ready_at(*d, order@, len0, w) {
                                assert forall|k: int|
                                    0 <= k < d.edges@.len() && (#[trigger] d.edges@[k]).1
                                        == w implies scheduled0[d.edges@[k].0 as int] by {
                                    assert(placed_before(order@, len0, d.edges@[k].0 as int));
                                }
                                assert(ready_in(*d, scheduled0, w));
                            }
                        }
                        lemma_ready_counts_match(*d, scheduled0, order@, len0, v as int);
                        lemma_ready_counts_match(*d, scheduled0, order@, len0, n as int);
                        assert(ready_count_at(*d, order@, len0, order@[len0] as int)
                            == rng_state_at(seed, len0 + 1) as int % ready_count_at(
                            *d,
                            order@,
                            len0,
                            d.num_nodes as int,
                        ));
                        assert forall|p: int|
                            0 <= p < len0 + 1 implies #[trigger] ready_count_at(
                            *d,
                            order@,
                            p,
                            order@[p] as int,
                        ) == rng_state_at(seed, p + 1) as int % ready_count_at(
                            *d,
                            order@,
                            p,
                            d.num_nodes as int,
                        ) by {
                            if p < len0 {
                                assert(order0.subrange(0, p) =~= order@.subrange(0, p));
                                lemma_ready_count_prefix(*d, order0, order@, p, order0[p] as int);
                                lemma_ready_count_prefix(*d, order0, order@, p, d.num_nodes as int);
                                assert(order@[p] == order0[p]);
                            }
                        }
                    }
                    if program_order_selected(flags) {
                        assert(flags & ((1u32 << 2) | (1u32 << 1) | (1u32 << 3)) == 0 ==> (flags
                            & (1u32 << 2) == 0 && flags & (1u32 << 1) == 0 && flags & (1u32 << 3)
                            == 0)) by (bit_vector);
                        assert forall|p: int, w: int|
                            0 <= p < order@.len() && #[trigger] ready_at(
                                *d,
                                order@,
                                p,
                                w,
                            ) implies order@[p] <= w by {
                            if p < len0 {
                                assert(ready_at(*d, order0, p, w));
                            } else {
                                assert(!placed_before(order0, len0, w));
                                assert(!scheduled0[w]);
                                assert forall|k: int|
                                    0 <= k < d.edges@.len() && (#[trigger] d.edges@[k]).1
                                        == w implies scheduled0[d.edges@[k].0 as int] by {
                                    assert(placed_before(order@, len0, d.edges@[k].0 as int));
                                }
                                assert(ready_in(*d, scheduled0, w));
                                assert(order@[p] == v <= w);
                            }
                        }
                    }
                }
            },
        }
    }
    proof {
        let len = order@.len() as int;
        lemma_int_range(0, n as int);
        assert(done.subset_of(set_int_range(0, n as int)));
        lemma_subset_equality(done, set_int_range(0, n as int));
        assert forall|v: int| 0 <= v < n implies #[trigger] scheduled@[v] by {
            assert(set_int_range(0, n as int).contains(v));
            assert(done.contains(v));
        }
        assert forall|v: int|
            0 <= v < n implies (#[trigger] position@[v]) < n && order@[position@[v] as int]
            == v by {
            assert(scheduled@[v]);
            assert(placed_before(order@, len, v));
            let q = choose|q: int| 0 <= q < len && (#[trigger] order@[q]) == v;
            assert(position@[order@[q] as int] == q);
        }
    }
    let s = ScheduleOutput { order, position };
    proof {
        assert forall|k: int|
            0 <= k < d.edges@.len() implies s.position@[(#[trigger] d.edges@[k]).0 as int]
            < s.position@[d.edges@[k].1 as int] by {
            let a = d.edges@[k].0 as int;
            let b = d.edges@[k].1 as int;
            let pb = s.position@[b] as int;
            assert(s.order@[pb] == b);
            assert(placed_before(s.order@, pb, a));
            let q = choose|q: int| 0 <= q < pb && (#[trigger] s.order@[q]) == a;
            assert(s.position@[s.order@[q] as int] == q);
        }
    }
    Ok(s)
}

/// Flags describing what one queue can execute.
pub type QueueFlags = u32;

pub const QUEUE_FLAG_NONE: QueueFlags = 0;
pub const QUEUE_FLAG_GRAPHICS: QueueFlags = 1u32 << 0;
pub const QUEUE_FLAG_COMPUTE: QueueFlags = 1u32 << 1;
pub const QUEUE_FLAG_COPY: QueueFlags = 1u32 << 2;

pub const MAX_QUEUES: usize = 8;

/// The largest node count one batch layout can index with its 16-bit-safe
/// fence bookkeeping.
pub const MAX_SCHEDULE_NODES: usize = 0xFFFF;

/// One contiguous run of commands submitted together to one queue.
///
/// Batches on one queue execute in array order; cross-queue ordering is
/// enforced solely through the wait/signal fence indices.
#[derive(Clone, Copy, Debug, PartialEq, Eq, Structural)]
pub struct CommandBatch {
    pub queue_index: u32,
    pub wait_fences_begin: u32,
    pub num_wait_fences: u32,
    pub signal_fence_index: u32,
    pub cmd_begin: u32,
    pub num_cmds: u32,
}

/// The finalized batch layout of one schedule: the batches in submission
/// order and the flattened wait-fence index lists they point into.
pub struct RenderGraphBatchLayout {
    pub num_cmd_batches: u32,
    pub num_fence_signals: u32,
    pub cmd_batches: Vec<CommandBatch>,
    pub wait_fence_indices: Vec<u32>,
}

/// Whether the layout is the batch grouping of the given command order:
/// maximal same-queue runs partition the positions, batch `b` signals
/// fence `b`, and each batch waits on the fences of every earlier batch on
/// another queue. `cmd_to_batch` maps each position to its batch.
pub open spec fn batch_layout_matches(
    queue_by_pos: Seq<u32>,
    layout: RenderGraphBatchLayout,
    cmd_to_batch: Seq<usize>,
) -> bool {
    let bs = layout.cmd_batches@;
    let w = layout.wait_fence_indices@;
    &&& layout.num_cmd_batches == bs.len()
    &&& layout.num_fence_signals == bs.len()
    &&& cmd_to_batch.len() == queue_by_pos.len()
    &&& (queue_by_pos.len() == 0 ==> bs.len() == 0 && w.len() == 0)
    &&& (queue_by_pos.len() > 0 ==> bs.len() > 0 && bs[0].cmd_begin == 0)
    &&& forall|b: int| 0 <= b < bs.len() ==> (#[trigger] bs[b]).num_cmds >= 1
    &&& forall|b: int|
        0 < b < bs.len() ==> (#[trigger] bs[b]).cmd_begin == bs[b - 1].cmd_begin + bs[b
            - 1].num_cmds
    &&& (bs.len() > 0 ==> bs[bs.len() - 1].cmd_begin + bs[bs.len() - 1].num_cmds
        == queue_by_pos.len())
    &&& forall|b: int|
        0 < b < bs.len() ==> (#[trigger] bs[b]).queue_index != bs[b - 1].queue_index
    &&& forall|b: int| 0 <= b < bs.len() ==> (#[trigger] bs[b]).signal_fence_index == b
    &&& forall|c: int|
        0 <= c < cmd_to_batch.len() ==> (#[trigger] cmd_to_batch[c]) < bs.len()
            && bs[cmd_to_batch[c] as int].cmd_begin <= c < bs[cmd_to_batch[c] as int].cmd_begin
            + bs[cmd_to_batch[c] as int].num_cmds && queue_by_pos[c] == bs[cmd_to_batch[c] as int].queue_index
    &&& forall|c1: int, c2: int|
        0 <= c1 <= c2 < cmd_to_batch.len() ==> #[trigger] cmd_to_batch[c1]
            <= #[trigger] cmd_to_batch[c2]
    &&& forall|b: int|
        0 <= b < bs.len() ==> (#[trigger] bs[b]).wait_fences_begin + bs[b].num_wait_fences
            <= w.len()
    &&& forall|b: int, t: int|
        0 <= b < bs.len() && 0 <= t < (#[trigger] bs[b]).num_wait_fences ==> (#[trigger] w[bs[b].wait_fences_begin + t]) < b && bs[w[bs[b].wait_fences_begin + t] as int].queue_index != bs[b].queue_index
    &&& forall|b: int, j: int|
        0 <= j < b < bs.len() && (#[trigger] bs[j]).queue_index != (#[trigger] bs[b]).queue_index
            ==> exists|t: int|
            0 <= t < bs[b].num_wait_fences && (#[trigger] w[bs[b].wait_fences_begin + t]) == j
}

/// Groups a scheduled command order into per-queue batches with fences.
///
/// `queue_by_pos` gives the queue index of the command at each position.
/// Consecutive commands on one queue share a batch; each batch signals the
/// fence bearing its own index and waits on the fences of all earlier
/// batches of other queues, which conservatively realizes every
/// cross-queue dependency. Also returns the position-to-batch map.
#[verifier::rlimit(100)]
pub fn build_batches(queue_by_pos: &Vec<u32>) -> (r: (RenderGraphBatchLayout, Vec<usize>))
    requires
        queue_by_pos@.len() <= MAX_SCHEDULE_NODES,
    ensures
        batch_layout_matches(queue_by_pos@, r.0, r.1@),
{
    let n = queue_by_pos.len();
    let mut batches: Vec<CommandBatch> = Vec::new();
    let mut cmd_to_batch: Vec<usize> = Vec::new();
    let mut c: usize = 0;
    while c < n
        invariant
            n == queue_by_pos@.len(),
            n <= MAX_SCHEDULE_NODES,
            0 <= c <= n,
            cmd_to_batch@.len() == c,
            batches@.len() <= c,
            c > 0 ==> batches@.len() > 0,
            c == 0 ==> batches@.len() == 0,
            batches@.len() > 0 ==> batches@[0].cmd_begin == 0,
            forall|b: int| 0 <= b < batches@.len() ==> (#[trigger] batches@[b]).num_cmds >= 1,
            forall|b: int|
                0 < b < batches@.len() ==> (#[trigger] batches@[b]).cmd_begin == batches@[b
                    - 1].cmd_begin + batches@[b - 1].num_cmds,
            batches@.len() > 0 ==> batches@[batches@.len() - 1].cmd_begin + batches@[batches@.len()
                - 1].num_cmds == c,
            forall|b: int|
                0 < b < batches@.len() ==> (#[trigger] batches@[b]).queue_index != batches@[b
                    - 1].queue_index,
            forall|cc: int|
                0 <= cc < c ==> (#[trigger] cmd_to_batch@[cc]) < batches@.len()
                    && batches@[cmd_to_batch@[cc] as int].cmd_begin <= cc < batches@[cmd_to_batch@[cc] as int].cmd_begin + batches@[cmd_to_batch@[cc] as int].num_cmds && queue_by_pos@[cc]
                    == batches@[cmd_to_batch@[cc] as int].queue_index,
            forall|c1: int, c2: int|
                0 <= c1 <= c2 < c ==> #[trigger] cmd_to_batch@[c1] <= #[trigger] cmd_to_batch@[c2],
        decreases n - c,
    {
        let q = queue_by_pos[c];
        let start_new = if batches.len() == 0 {
            true
        } else {
            batches[batches.len() - 1].queue_index != q
        };
        if start_new {
            batches.push(
                CommandBatch {
                    queue_index: q,
                    wait_fences_begin: 0,
                    num_wait_fences: 0,
                    signal_fence_index: 0,
                    cmd_begin: c as u32,
                    num_cmds: 1,
                },
            );
        } else {
            let last = batches.len() - 1;
            let mut upd = batches[last];
            upd.num_cmds = upd.num_cmds + 1;
            batches[last] = upd;
        }
        cmd_to_batch.push(batches.len() - 1);
        c = c + 1;
    }
    let nb = batches.len();
    let mut begins: Vec<u32> = Vec::new();
    let mut counts: Vec<u32> = Vec::new();
    let mut waits: Vec<u32> = Vec::new();
    let mut b: usize = 0;
    while b < nb
        invariant
            nb == batches@.len(),
            nb <= n <= MAX_SCHEDULE_NODES,
            0 <= b <= nb,
            begins@.len() == b,
            counts@.len() == b,
            waits@.len() <= b * 65536,
            forall|b2: int|
                0 <= b2 < b ==> (#[trigger] begins@[b2]) + counts@[b2] <= waits@.len(),
            forall|b2: int, t: int|
                0 <= b2 < b && 0 <= t < (#[trigger] counts@[b2]) ==> (#[trigger] waits@[begins@[b2]
                    + t]) < b2 && batches@[waits@[begins@[b2] + t] as int].queue_index
                    != batches@[b2].queue_index,
            forall|b2: int, j: int|
                0 <= j < b2 < b && (#[trigger] batches@[j]).queue_index != (
                #[trigger] batches@[b2]).queue_index ==> exists|t: int|
                    0 <= t < counts@[b2] && (#[trigger] waits@[begins@[b2] + t]) == j,
        decreases nb - b,
    {
        let begin = waits.len();
        let ghost waits0 = waits@;
        let mut j: usize = 0;
        while j < b
            invariant
                nb == batches@.len(),
                nb <= n <= MAX_SCHEDULE_NODES,
                0 <= b < nb,
                0 <= j <= b,
                begin == waits0.len(),
                waits0.len() <= b * 65536,
                begin <= waits@.len(),
                waits@.len() - begin <= j,
                forall|t: int| 0 <= t < begin ==> waits@[t] == waits0[t],
                forall|t: int|
                    begin <= t < waits@.len() ==> (#[trigger] waits@[t]) < j
                        && batches@[waits@[t] as int].queue_index != batches@[b as int].queue_index,
                forall|j2: int|
                    0 <= j2 < j && (#[trigger] batches@[j2]).queue_index != batches@[b as int].queue_index
                        ==> exists|t: int|
                        begin <= t < waits@.len() && (#[trigger] waits@[t]) == j2,
            decreases b - j,
        {
            let ghost waits_prev = waits@;
            if batches[j].queue_index != batches[b].queue_index {
                waits.push(j as u32);
                proof {
                    assert(waits@ == waits_prev.push(j as u32));
                    assert(waits@[waits_prev.len() as int] == j as u32);
                    assert forall|j2: int|
                        0 <= j2 < j + 1 && (#[trigger] batches@[j2]).queue_index != batches@[b as int].queue_index implies exists|t: int|
                        begin <= t < waits@.len() && (#[trigger] waits@[t]) == j2 by {
                        if j2 == j as int {
                            assert(begin <= waits_prev.len() < waits@.len());
                        } else {
                            let t = choose|t: int|
                                begin <= t < waits_prev.len() && (#[trigger] waits_prev[t]) == j2;
                            assert(waits@[t] == j2);
                        }
                    }
                }
            }
            j = j + 1;
        }
        let count = waits.len() - begin;
        begins.push(begin as u32);
        counts.push(count as u32);
        proof {
            assert forall|b2: int, t: int|
                0 <= b2 < b + 1 && 0 <= t < (#[trigger] counts@[b2]) implies (
            #[trigger] waits@[begins@[b2] + t]) < b2 && batches@[waits@[begins@[b2]
                + t] as int].queue_index != batches@[b2].queue_index by {
                if b2 < b {
                    assert(begins@[b2] + counts@[b2] <= begin);
                    assert(waits@[begins@[b2] + t] == waits0[begins@[b2] + t]);
                } else {
                    assert(begins@[b2] == begin);
                    assert(begin <= begins@[b2] + t < waits@.len());
                }
            }
            assert forall|b2: int, j2: int|
                0 <= j2 < b2 < b + 1 && (#[trigger] batches@[j2]).queue_index != (
                #[trigger] batches@[b2]).queue_index implies exists|t: int|
                0 <= t < counts@[b2] && (#[trigger] waits@[begins@[b2] + t]) == j2 by {
                if b2 < b {
                    let t = choose|t: int|
                        0 <= t < counts@[b2] && (#[trigger] waits0[begins@[b2] + t]) == j2;
                    assert(waits@[begins@[b2] + t] == j2);
                } else {
                    let t = choose|t: int|
                        begin <= t < waits@.len() && (#[trigger] waits@[t]) == j2;
                    assert(waits@[begins@[b2] + (t - begin)] == j2);
                }
            }
        }
        b = b + 1;
    }
    let mut out: Vec<CommandBatch> = Vec::new();
    let mut b2: usize = 0;
    while b2 < nb
        invariant
            nb == batches@.len(),
            nb <= n <= MAX_SCHEDULE_NODES,
            begins@.len() == nb,
            counts@.len() == nb,
            0 <= b2 <= nb,
            out@.len() == b2,
            forall|i: int|
                0 <= i < b2 ==> (#[trigger] out@[i]) == (CommandBatch {
                    queue_index: batches@[i].queue_index,
                    wait_fences_begin: begins@[i],
                    num_wait_fences: counts@[i],
                    signal_fence_index: i as u32,
                    cmd_begin: batches@[i].cmd_begin,
                    num_cmds: batches@[i].num_cmds,
                }),
        decreases nb - b2,
    {
        let src = batches[b2];
        out.push(
            CommandBatch {
                queue_index: src.queue_index,
                wait_fences_begin: begins[b2],
                num_wait_fences: counts[b2],
                signal_fence_index: b2 as u32,
                cmd_begin: src.cmd_begin,
                num_cmds: src.num_cmds,
            },
        );
        b2 = b2 + 1;
    }
    let layout = RenderGraphBatchLayout {
        num_cmd_batches: nb as u32,
        num_fence_signals: nb as u32,
        cmd_batches: out,
        wait_fence_indices: waits,
    };
    proof {
        let bs = layout.cmd_batches@;
        let w = layout.wait_fence_indices@;
        assert forall|bb: int, t: int|
            0 <= bb < bs.len() && 0 <= t < (#[trigger] bs[bb]).num_wait_fences implies (
        #[trigger] w[bs[bb].wait_fences_begin + t]) < bb && bs[w[bs[bb].wait_fences_begin
            + t] as int].queue_index != bs[bb].queue_index by {
            assert(waits@[begins@[bb] + t] < bb);
        }
        assert forall|bb: int, j: int|
            0 <= j < bb < bs.len() && (#[trigger] bs[j]).queue_index != (
        #[trigger] bs[bb]).queue_index implies exists|t: int|
            0 <= t < bs[bb].num_wait_fences && (#[trigger] w[bs[bb].wait_fences_begin + t])
                == j by {
            assert(batches@[j].queue_index != batches@[bb].queue_index);
            let t = choose|t: int|
                0 <= t < counts@[bb] && (#[trigger] waits@[begins@[bb] + t]) == j;
            assert(w[bs[bb].wait_fences_begin + t] == j);
        }
    }
    (layout, cmd_to_batch)
}

/// Batch command ranges are ordered: batch `j` ends at or before batch
/// `b` begins.
proof fn lemma_batch_ranges_ordered(
    q: Seq<u32>,
    l: RenderGraphBatchLayout,
    m: Seq<usize>,
    j: int,
    b: int,
)
    requires
        batch_layout_matches(q, l, m),
        0 <= j < b < l.cmd_batches@.len(),
    ensures
        l.cmd_batches@[j].cmd_begin + l.cmd_batches@[j].num_cmds <= l.cmd_batches@[b].cmd_begin,
    decreases b - j,
{
    if j < b - 1 {
        lemma_batch_ranges_ordered(q, l, m, j, b - 1);
    }
}

/// Every batch ends within the command range.
pub proof fn lemma_batch_ends_in_range(q: Seq<u32>, l: RenderGraphBatchLayout, m: Seq<usize>, b: int)
    requires
        batch_layout_matches(q, l, m),
        0 <= b < l.cmd_batches@.len(),
    ensures
        l.cmd_batches@[b].cmd_begin + l.cmd_batches@[b].num_cmds <= q.len(),
{
    let last = l.cmd_batches@.len() - 1;
    if b < last {
        lemma_batch_ranges_ordered(q, l, m, b, last);
    }
}

/// The batch containing a command is unique: the map entry of any command
/// within a batch's range is that batch.
pub proof fn lemma_cmd_batch_unique(q: Seq<u32>, l: RenderGraphBatchLayout, m: Seq<usize>, c: int, b: int)
    requires
        batch_layout_matches(q, l, m),
        0 <= b < l.cmd_batches@.len(),
        0 <= c < q.len(),
        l.cmd_batches@[b].cmd_begin <= c < l.cmd_batches@[b].cmd_begin
            + l.cmd_batches@[b].num_cmds,
    ensures
        m[c] == b,
{
    let b2 = m[c] as int;
    if b2 < b {
        lemma_batch_ranges_ordered(q, l, m, b2, b);
    }
    if b2 > b {
        lemma_batch_ranges_ordered(q, l, m, b, b2);
    }
}

/// The batch boundaries of a layout are a function of the per-position
/// queues alone: two layouts of one command order agree batch by batch on
/// queue, command range and signal fence.
#[verifier::spinoff_prover]
pub proof fn lemma_batch_layout_agreement(
    q: Seq<u32>,
    l1: RenderGraphBatchLayout,
    m1: Seq<usize>,
    l2: RenderGraphBatchLayout,
    m2: Seq<usize>,
)
    requires
        batch_layout_matches(q, l1, m1),
        batch_layout_matches(q, l2, m2),
    ensures
        l1.cmd_batches@.len() == l2.cmd_batches@.len(),
        forall|b: int|
            0 <= b < l1.cmd_batches@.len() ==> ((#[trigger] l1.cmd_batches@[b]).queue_index,
            l1.cmd_batches@[b].cmd_begin, l1.cmd_batches@[b].num_cmds,
            l1.cmd_batches@[b].signal_fence_index) == ((#[trigger] l2.cmd_batches@[b]).queue_index,
            l2.cmd_batches@[b].cmd_begin, l2.cmd_batches@[b].num_cmds,
            l2.cmd_batches@[b].signal_fence_index),
{
    let bs1 = l1.cmd_batches@;
    let bs2 = l2.cmd_batches@;
    lemma_batch_prefix_agreement(q, l1, m1, l2, m2, if bs1.len() <= bs2.len() {
        bs1.len() as int
    } else {
        bs2.len() as int
    });
    // neither layout can have a batch past the other's end
    if bs1.len() < bs2.len() {
        let b = bs1.len() as int;
        assert(bs2[b].num_cmds >= 1);
        lemma_batch_ends_in_range(q, l2, m2, b);
        if b == 0 {
            assert(q.len() > 0);
            assert(bs1.len() > 0);
        } else {
            assert(bs1[b - 1].cmd_begin + bs1[b - 1].num_cmds == q.len());
            assert(bs2[b - 1].cmd_begin + bs2[b - 1].num_cmds == bs2[b].cmd_begin);
            assert(bs2[b].cmd_begin + bs2[b].num_cmds <= q.len());
            assert(false);
        }
    }
    if bs2.len() < bs1.len() {
        let b = bs2.len() as int;
        assert(bs1[b].num_cmds >= 1);
        lemma_batch_ends_in_range(q, l1, m1, b);
        if b == 0 {
            assert(q.len() > 0);
            assert(bs2.len() > 0);
        } else {
            assert(bs2[b - 1].cmd_begin + bs2[b - 1].num_cmds == q.len());
            assert(bs1[b - 1].cmd_begin + bs1[b - 1].num_cmds == bs1[b].cmd_begin);
            assert(bs1[b].cmd_begin + bs1[b].num_cmds <= q.len());
            assert(false);
        }
    }
}

/// Two layouts of one command order map every position to the same batch.
pub proof fn lemma_batch_map_agreement(
    q: Seq<u32>,
    l1: RenderGraphBatchLayout,
    m1: Seq<usize>,
    l2: RenderGraphBatchLayout,
    m2: Seq<usize>,
)
    requires
        batch_layout_matches(q, l1, m1),
        batch_layout_matches(q, l2, m2),
    ensures
        m1 =~= m2,
{
    lemma_batch_layout_agreement(q, l1, m1, l2, m2);
    assert forall|c: int| 0 <= c < m1.len() implies (#[trigger] m1[c]) == m2[c] by {
        let b = m2[c] as int;
        assert(l2.cmd_batches@[b].cmd_begin <= c < l2.cmd_batches@[b].cmd_begin
            + l2.cmd_batches@[b].num_cmds);
        lemma_cmd_batch_unique(q, l1, m1, c, b);
    }
}

/// Two layouts of one command order make any batch wait on the fences of
/// the same earlier batches.
pub proof fn lemma_batch_waits_agree(
    q: Seq<u32>,
    l1: RenderGraphBatchLayout,
    m1: Seq<usize>,
    l2: RenderGraphBatchLayout,
    m2: Seq<usize>,
    b: int,
    j: int,
)
    requires
        batch_layout_matches(q, l1, m1),
        batch_layout_matches(q, l2, m2),
        0 <= j < b < l1.cmd_batches@.len(),
    ensures
        (exists|t: int|
            0 <= t < l1.cmd_batches@[b].num_wait_fences && (
            #[trigger] l1.wait_fence_indices@[l1.cmd_batches@[b].wait_fences_begin + t]) == j)
            <==> (exists|t: int|
            0 <= t < l2.cmd_batches@[b].num_wait_fences && (
            #[trigger] l2.wait_fence_indices@[l2.cmd_batches@[b].wait_fences_begin + t]) == j),
{
    lemma_batch_layout_agreement(q, l1, m1, l2, m2);
    let bs1 = l1.cmd_batches@;
    let bs2 = l2.cmd_batches@;
    if exists|t: int|
        0 <= t < bs1[b].num_wait_fences && (
        #[trigger] l1.wait_fence_indices@[bs1[b].wait_fences_begin + t]) == j {
        let t = choose|t: int|
            0 <= t < bs1[b].num_wait_fences && (
            #[trigger] l1.wait_fence_indices@[bs1[b].wait_fences_begin + t]) == j;
        assert(bs1[j].queue_index != bs1[b].queue_index);
        assert(bs2[j].queue_index != bs2[b].queue_index);
    }
    if exists|t: int|
        0 <= t < bs2[b].num_wait_fences && (
        #[trigger] l2.wait_fence_indices@[bs2[b].wait_fences_begin + t]) == j {
        let t = choose|t: int|
            0 <= t < bs2[b].num_wait_fences && (
            #[trigger] l2.wait_fence_indices@[bs2[b].wait_fences_begin + t]) == j;
        assert(bs2[j].queue_index != bs2[b].queue_index);
        assert(bs1[j].queue_index != bs1[b].queue_index);
    }
}

/// The first `hi` batches of two layouts of one command order agree on
/// queue, command range and signal fence.
#[verifier::spinoff_prover]
#[verifier::rlimit(100)]
proof fn lemma_batch_prefix_agreement(
    q: Seq<u32>,
    l1: RenderGraphBatchLayout,
    m1: Seq<usize>,
    l2: RenderGraphBatchLayout,
    m2: Seq<usize>,
    hi: int,
)
    requires
        batch_layout_matches(q, l1, m1),
        batch_layout_matches(q, l2, m2),
        hi <= l1.cmd_batches@.len(),
        hi <= l2.cmd_batches@.len(),
    ensures
        forall|b: int|
            0 <= b < hi ==> ((#[trigger] l1.cmd_batches@[b]).queue_index,
            l1.cmd_batches@[b].cmd_begin, l1.cmd_batches@[b].num_cmds,
            l1.cmd_batches@[b].signal_fence_index) == ((#[trigger] l2.cmd_batches@[b]).queue_index,
            l2.cmd_batches@[b].cmd_begin, l2.cmd_batches@[b].num_cmds,
            l2.cmd_batches@[b].signal_fence_index),
    decreases hi,
{
    let bs1 = l1.cmd_batches@;
    let bs2 = l2.cmd_batches@;
    if hi > 0 {
        let b = hi - 1;
        lemma_batch_prefix_agreement(q, l1, m1, l2, m2, b);
        // the two batches start together
        if b > 0 {
            assert(bs1[b].cmd_begin == bs1[b - 1].cmd_begin + bs1[b - 1].num_cmds);
            assert(bs2[b].cmd_begin == bs2[b - 1].cmd_begin + bs2[b - 1].num_cmds);
        }
        assert(bs1[b].cmd_begin == bs2[b].cmd_begin);
        let c = bs1[b].cmd_begin as int;
        lemma_batch_ends_in_range(q, l1, m1, b);
        lemma_batch_ends_in_range(q, l2, m2, b);
        lemma_cmd_batch_unique(q, l1, m1, c, b);
        assert(q[c] == bs1[b].queue_index);
        lemma_cmd_batch_unique(q, l2, m2, c, b);
        assert(q[c] == bs2[b].queue_index);
        // and they hold the same number of commands: if one ended first,
        // the other would keep a command of a different queue in the run
        lemma_batch_runs_agree(q, l1, m1, l2, m2, b);
        lemma_batch_runs_agree(q, l2, m2, l1, m1, b);
    }
}

/// If two layouts agree on where batch `b` begins, the first cannot hold
/// fewer commands in it than the second.
proof fn lemma_batch_runs_agree(
    q: Seq<u32>,
    l1: RenderGraphBatchLayout,
    m1: Seq<usize>,
    l2: RenderGraphBatchLayout,
    m2: Seq<usize>,
    b: int,
)
    requires
        batch_layout_matches(q, l1, m1),
        batch_layout_matches(q, l2, m2),
        0 <= b < l1.cmd_batches@.len(),
        b < l2.cmd_batches@.len(),
        l1.cmd_batches@[b].cmd_begin == l2.cmd_batches@[b].cmd_begin,
        l1.cmd_batches@[b].queue_index == l2.cmd_batches@[b].queue_index,
    ensures
        l1.cmd_batches@[b].num_cmds >= l2.cmd_batches@[b].num_cmds,
{
    let bs1 = l1.cmd_batches@;
    let bs2 = l2.cmd_batches@;
    if bs1[b].num_cmds < bs2[b].num_cmds {
        let c = bs1[b].cmd_begin + bs1[b].num_cmds;
        lemma_batch_ends_in_range(q, l2, m2, b);
        assert(0 <= c < q.len());
        // in the second layout the command still belongs to batch b
        lemma_cmd_batch_unique(q, l2, m2, c, b);
        assert(q[c] == bs2[b].queue_index);
        // in the first it opens batch b + 1, which changed queue
        assert(b + 1 < bs1.len()) by {
            if b + 1 == bs1.len() {
                assert(bs1[b].cmd_begin + bs1[b].num_cmds == q.len());
            }
        }
        assert(bs1[b + 1].cmd_begin == c);
        lemma_batch_ends_in_range(q, l1, m1, b + 1);
        lemma_cmd_batch_unique(q, l1, m1, c, b + 1);
        assert(q[c] == bs1[b + 1].queue_index);
        assert(bs1[b + 1].queue_index != bs1[b].queue_index);
        assert(false);
    }
}

/// When every per-position queue lies below a bound, so does every
/// batch's queue index.
pub proof fn lemma_batch_queues_bounded(
    q: Seq<u32>,
    l: RenderGraphBatchLayout,
    m: Seq<usize>,
    bound: int,
)
    requires
        batch_layout_matches(q, l, m),
        forall|c: int| 0 <= c < q.len() ==> (#[trigger] q[c]) < bound,
    ensures
        forall|b: int|
            0 <= b < l.cmd_batches@.len() ==> ((#[trigger] l.cmd_batches@[b]).queue_index as int)
                < bound,
{
    assert forall|b: int|
        0 <= b < l.cmd_batches@.len() implies ((#[trigger] l.cmd_batches@[b]).queue_index as int)
        < bound by {
        lemma_batch_ends_in_range(q, l, m, b);
        let c = l.cmd_batches@[b].cmd_begin as int;
        lemma_cmd_batch_unique(q, l, m, c, b);
        assert(q[c] == l.cmd_batches@[b].queue_index);
    }
}

/// In a valid schedule, the node emitted at any position is ready there:
/// it has not been emitted before, and all its dependency sources have.
pub proof fn lemma_emitted_is_ready(d: DependencyGraph, s: ScheduleOutput, p: int)
    requires
        edges_in_bounds(d),
        valid_schedule(d, s),
        0 <= p < d.num_nodes,
    ensures
        ready_at(d, s.order@, p, s.order@[p] as int),
{
    let v = s.order@[p] as int;
    if placed_before(s.order@, p, v) {
        let q = choose|q: int| 0 <= q < p && (#[trigger] s.order@[q]) == v;
        assert(s.position@[s.order@[q] as int] == q);
        assert(s.position@[s.order@[p] as int] == p);
        assert(false);
    }
    assert forall|k: int|
        0 <= k < d.edges@.len() && (#[trigger] d.edges@[k]).1 == v implies placed_before(
        s.order@,
        p,
        d.edges@[k].0 as int,
    ) by {
        let a = d.edges@[k].0 as int;
        assert(s.position@[a] < s.position@[d.edges@[k].1 as int]);
        assert(s.position@[d.edges@[k].1 as int] == p);
        assert(s.order@[s.position@[a] as int] == a);
    }
}

/// Readiness at position `p` depends only on the first `p` entries of the
/// order.
pub proof fn lemma_ready_at_prefix(
    d: DependencyGraph,
    o1: Seq<usize>,
    o2: Seq<usize>,
    p: int,
    v: int,
)
    requires
        0 <= p <= o1.len(),
        p <= o2.len(),
        o1.subrange(0, p) =~= o2.subrange(0, p),
        ready_at(d, o1, p, v),
    ensures
        ready_at(d, o2, p, v),
{
    assert forall|x: int| placed_before(o1, p, x) == placed_before(o2, p, x) by {
        if placed_before(o1, p, x) {
            let q = choose|q: int| 0 <= q < p && (#[trigger] o1[q]) == x;
            assert(o2.subrange(0, p)[q] == o1.subrange(0, p)[q]);
            assert(o2[q] == x);
        }
        if placed_before(o2, p, x) {
            let q = choose|q: int| 0 <= q < p && (#[trigger] o2[q]) == x;
            assert(o1.subrange(0, p)[q] == o2.subrange(0, p)[q]);
            assert(o1[q] == x);
        }
    }
}

/// Ready counts at one position depend only on the first `p` entries of
/// the order.
proof fn lemma_ready_count_prefix(
    d: DependencyGraph,
    o1: Seq<usize>,
    o2: Seq<usize>,
    p: int,
    v: int,
)
    requires
        0 <= p <= o1.len(),
        p <= o2.len(),
        o1.subrange(0, p) =~= o2.subrange(0, p),
    ensures
        ready_count_at(d, o1, p, v) == ready_count_at(d, o2, p, v),
    decreases v,
{
    if v > 0 {
        lemma_ready_count_prefix(d, o1, o2, p, v - 1);
        if ready_at(d, o1, p, v - 1) {
            lemma_ready_at_prefix(d, o1, o2, p, v - 1);
        }
        if ready_at(d, o2, p, v - 1) {
            lemma_ready_at_prefix(d, o2, o1, p, v - 1);
        }
    }
}

/// The scheduled-mark readiness and the order-prefix readiness count the
/// same nodes when they agree pointwise.
proof fn lemma_ready_counts_match(
    d: DependencyGraph,
    scheduled: Seq<bool>,
    o: Seq<usize>,
    p: int,
    v: int,
)
    requires
        forall|w: int|
            0 <= w < d.num_nodes ==> #[trigger] ready_in(d, scheduled, w) == ready_at(d, o, p, w),
        0 <= v <= d.num_nodes,
    ensures
        ready_count_below(d, scheduled, v) == ready_count_at(d, o, p, v),
    decreases v,
{
    if v > 0 {
        lemma_ready_counts_match(d, scheduled, o, p, v - 1);
    }
}

/// Past a ready node the ready count strictly grows.
proof fn lemma_ready_count_strict(d: DependencyGraph, o: Seq<usize>, p: int, v1: int, v2: int)
    requires
        0 <= v1 < v2,
        ready_at(d, o, p, v1),
    ensures
        ready_count_at(d, o, p, v2) >= ready_count_at(d, o, p, v1) + 1,
    decreases v2,
{
    if v2 > v1 + 1 {
        lemma_ready_count_strict(d, o, p, v1, v2 - 1);
    }
}

/// The first `p` positions of two seeded random schedules of one DAG
/// under one seed agree.
proof fn lemma_seeded_random_prefix(
    d: DependencyGraph,
    s1: ScheduleOutput,
    s2: ScheduleOutput,
    seed: u64,
    p: int,
)
    requires
        edges_in_bounds(d),
        valid_schedule(d, s1),
        valid_schedule(d, s2),
        is_seeded_random_schedule(d, s1.order@, seed),
        is_seeded_random_schedule(d, s2.order@, seed),
        0 <= p <= d.num_nodes,
    ensures
        s1.order@.subrange(0, p) =~= s2.order@.subrange(0, p),
    decreases p,
{
    if p > 0 {
        lemma_seeded_random_prefix(d, s1, s2, seed, p - 1);
        let o1 = s1.order@;
        let o2 = s2.order@;
        let v1 = o1[p - 1] as int;
        let v2 = o2[p - 1] as int;
        lemma_emitted_is_ready(d, s1, p - 1);
        lemma_emitted_is_ready(d, s2, p - 1);
        lemma_ready_at_prefix(d, o2, o1, p - 1, v2);
        lemma_ready_count_prefix(d, o2, o1, p - 1, v2);
        lemma_ready_count_prefix(d, o2, o1, p - 1, d.num_nodes as int);
        assert(ready_count_at(d, o1, p - 1, v1) == rng_state_at(seed, p) as int % ready_count_at(
            d,
            o1,
            p - 1,
            d.num_nodes as int,
        ));
        assert(ready_count_at(d, o2, p - 1, v2) == rng_state_at(seed, p) as int % ready_count_at(
            d,
            o2,
            p - 1,
            d.num_nodes as int,
        ));
        assert(ready_count_at(d, o1, p - 1, v2) == ready_count_at(d, o1, p - 1, v1));
        if v1 < v2 {
            lemma_ready_count_strict(d, o1, p - 1, v1, v2);
        }
        if v2 < v1 {
            lemma_ready_count_strict(d, o1, p - 1, v2, v1);
        }
        assert(v1 == v2);
        assert forall|q: int|
            0 <= q < p implies (#[trigger] o1.subrange(0, p)[q]) == o2.subrange(0, p)[q] by {
            if q < p - 1 {
                assert(o1.subrange(0, p - 1)[q] == o2.subrange(0, p - 1)[q]);
            }
        }
    }
}

/// Re-running the scheduler under the random tie-break with one seed
/// reproduces the same order and positions: the seeded random schedule of
/// a DAG is unique, which keeps stress schedules reproducible.
pub proof fn lemma_seeded_random_schedule_unique(
    d: DependencyGraph,
    s1: ScheduleOutput,
    s2: ScheduleOutput,
    seed: u64,
)
    requires
        edges_in_bounds(d),
        valid_schedule(d, s1),
        valid_schedule(d, s2),
        is_seeded_random_schedule(d, s1.order@, seed),
        is_seeded_random_schedule(d, s2.order@, seed),
    ensures
        s1.order@ =~= s2.order@,
        s1.position@ =~= s2.position@,
{
    let n = d.num_nodes as int;
    lemma_seeded_random_prefix(d, s1, s2, seed, n);
    assert(s1.order@.subrange(0, n) =~= s1.order@);
    assert(s2.order@.subrange(0, n) =~= s2.order@);
    assert forall|v: int| 0 <= v < n implies (#[trigger] s1.position@[v]) == s2.position@[v] by {
        let q = s2.position@[v] as int;
        assert(s2.order@[q] == v);
        assert(s1.order@[q] == v);
        assert(s1.position@[s1.order@[q] as int] == q);
    }
}

/// The first `p` positions of two program-order schedules of one DAG
/// agree.
proof fn lemma_program_order_prefix(
    d: DependencyGraph,
    s1: ScheduleOutput,
    s2: ScheduleOutput,
    p: int,
)
    requires
        edges_in_bounds(d),
        valid_schedule(d, s1),
        valid_schedule(d, s2),
        is_program_order_schedule(d, s1.order@),
        is_program_order_schedule(d, s2.order@),
        0 <= p <= d.num_nodes,
    ensures
        s1.order@.subrange(0, p) =~= s2.order@.subrange(0, p),
    decreases p,
{
    if p > 0 {
        lemma_program_order_prefix(d, s1, s2, p - 1);
        let v1 = s1.order@[p - 1] as int;
        let v2 = s2.order@[p - 1] as int;
        lemma_emitted_is_ready(d, s1, p - 1);
        lemma_emitted_is_ready(d, s2, p - 1);
        lemma_ready_at_prefix(d, s1.order@, s2.order@, p - 1, v1);
        lemma_ready_at_prefix(d, s2.order@, s1.order@, p - 1, v2);
        assert(ready_at(d, s2.order@, p - 1, v1));
        assert(ready_at(d, s1.order@, p - 1, v2));
        assert(s2.order@[p - 1] <= v1);
        assert(s1.order@[p - 1] <= v2);
        assert(v1 == v2);
        assert forall|q: int|
            0 <= q < p implies (#[trigger] s1.order@.subrange(0, p)[q]) == s2.order@.subrange(
            0,
            p,
        )[q] by {
            if q < p - 1 {
                assert(s1.order@.subrange(0, p - 1)[q] == s2.order@.subrange(0, p - 1)[q]);
            }
        }
    }
}

/// Re-running the scheduler on an unchanged graph under the program-order
/// tie-break reproduces the same order and positions: exactly one
/// topological order of a DAG emits the least ready node at every step.
pub proof fn lemma_program_order_schedule_unique(
    d: DependencyGraph,
    s1: ScheduleOutput,
    s2: ScheduleOutput,
)
    requires
        edges_in_bounds(d),
        valid_schedule(d, s1),
        valid_schedule(d, s2),
        is_program_order_schedule(d, s1.order@),
        is_program_order_schedule(d, s2.order@),
    ensures
        s1.order@ =~= s2.order@,
        s1.position@ =~= s2.position@,
{
    let n = d.num_nodes as int;
    lemma_program_order_prefix(d, s1, s2, n);
    assert(s1.order@.subrange(0, n) =~= s1.order@);
    assert(s2.order@.subrange(0, n) =~= s2.order@);
    assert forall|v: int| 0 <= v < n implies (#[trigger] s1.position@[v]) == s2.position@[v] by {
        let q = s2.position@[v] as int;
        assert(s2.order@[q] == v);
        assert(s1.order@[q] == v);
        assert(s1.position@[s1.order@[q] as int] == q);
    }
}

/// No order at all can place every member of a stuck set within its first
/// `p` positions' complement: each member sits at position `p` or later.
proof fn lemma_stuck_positions_at_least(
    d: DependencyGraph,
    cert: Set<int>,
    s: ScheduleOutput,
    p: int,
)
    requires
        stuck_set(d, cert),
        valid_schedule(d, s),
        p >= 0,
    ensures
        forall|v: int| #[trigger] cert.contains(v) ==> s.position@[v] >= p,
    decreases p,
{
    if p > 0 {
        lemma_stuck_positions_at_least(d, cert, s, p - 1);
        assert forall|v: int| #[trigger] cert.contains(v) implies s.position@[v] >= p by {
            let k = choose|k: int|
                0 <= k < d.edges@.len() && (#[trigger] d.edges@[k]).1 == v && cert.contains(
                    d.edges@[k].0 as int,
                );
            assert(s.position@[d.edges@[k].0 as int] >= p - 1);
            assert(s.position@[d.edges@[k].0 as int] < s.position@[v]);
        }
    }
}

/// A stuck-set certificate is sound: a graph that has one admits no valid
/// schedule, so rejecting it with `InvalidProgram` loses nothing.
pub proof fn lemma_stuck_set_no_schedule(d: DependencyGraph, cert: Set<int>, s: ScheduleOutput)
    requires
        stuck_set(d, cert),
    ensures
        !valid_schedule(d, s),
{
    if valid_schedule(d, s) {
        lemma_stuck_positions_at_least(d, cert, s, d.num_nodes as int);
        assert(exists|v: int| cert.contains(v)) by {
            if forall|v: int| !(#[trigger] cert.contains(v)) {
                assert(cert =~= Set::<int>::empty());
            }
        }
        let v = choose|v: int| cert.contains(v);
        assert(s.position@[v] >= d.num_nodes);
        assert(s.position@[v] < d.num_nodes);
    }
}

/// The program-order property does not depend on which edge list
/// represents the hazard relation: any two DAGs matching the same node
/// list induce the same readiness, so the property transfers.
pub proof fn lemma_program_order_transfers(
    nodes: Seq<crate::graph::NodeInfo>,
    d1: DependencyGraph,
    d2: DependencyGraph,
    o: Seq<usize>,
)
    requires
        crate::analyze::dag_matches(nodes, d1),
        crate::analyze::dag_matches(nodes, d2),
        is_program_order_schedule(d1, o),
    ensures
        is_program_order_schedule(d2, o),
{
    assert forall|p: int, v: int|
        0 <= p < o.len() && #[trigger] ready_at(d2, o, p, v) implies o[p] <= v by {
        assert(ready_at(d1, o, p, v)) by {
            assert forall|k: int|
                0 <= k < d1.edges@.len() && (#[trigger] d1.edges@[k]).1 == v implies placed_before(
                o,
                p,
                d1.edges@[k].0 as int,
            ) by {
                let a = d1.edges@[k].0 as int;
                assert(crate::analyze::dep_edge(nodes, a, v));
                assert(crate::analyze::edge_in(d2.edges@, a, v));
                let k2 = choose|k2: int|
                    0 <= k2 < d2.edges@.len() && (#[trigger] d2.edges@[k2]).0 == a
                        && d2.edges@[k2].1 == v;
                assert(placed_before(o, p, d2.edges@[k2].0 as int));
            }
        }
    }
}

/// Readiness does not depend on which edge list represents the hazard
/// relation: any two DAGs matching one node list agree on it.
proof fn lemma_ready_at_dag_equiv(
    nodes: Seq<crate::graph::NodeInfo>,
    d1: DependencyGraph,
    d2: DependencyGraph,
    o: Seq<usize>,
    p: int,
    v: int,
)
    requires
        crate::analyze::dag_matches(nodes, d1),
        crate::analyze::dag_matches(nodes, d2),
        ready_at(d1, o, p, v),
    ensures
        ready_at(d2, o, p, v),
{
    assert forall|k: int|
        0 <= k < d2.edges@.len() && (#[trigger] d2.edges@[k]).1 == v implies placed_before(
        o,
        p,
        d2.edges@[k].0 as int,
    ) by {
        let a = d2.edges@[k].0 as int;
        assert(crate::analyze::dep_edge(nodes, a, v));
        assert(crate::analyze::edge_in(d1.edges@, a, v));
        let k1 = choose|k1: int|
            0 <= k1 < d1.edges@.len() && (#[trigger] d1.edges@[k1]).0 == a && d1.edges@[k1].1 == v;
        assert(placed_before(o, p, d1.edges@[k1].0 as int));
    }
}

/// Neither do ready counts.
proof fn lemma_ready_count_dag_equiv(
    nodes: Seq<crate::graph::NodeInfo>,
    d1: DependencyGraph,
    d2: DependencyGraph,
    o: Seq<usize>,
    p: int,
    v: int,
)
    requires
        crate::analyze::dag_matches(nodes, d1),
        crate::analyze::dag_matches(nodes, d2),
    ensures
        ready_count_at(d1, o, p, v) == ready_count_at(d2, o, p, v),
    decreases v,
{
    if v > 0 {
        lemma_ready_count_dag_equiv(nodes, d1, d2, o, p, v - 1);
        if ready_at(d1, o, p, v - 1) {
            lemma_ready_at_dag_equiv(nodes, d1, d2, o, p, v - 1);
        }
        if ready_at(d2, o, p, v - 1) {
            lemma_ready_at_dag_equiv(nodes, d2, d1, o, p, v - 1);
        }
    }
}

/// The seeded-random property transfers between any two DAGs matching one
/// node list.
pub proof fn lemma_seeded_random_transfers(
    nodes: Seq<crate::graph::NodeInfo>,
    d1: DependencyGraph,
    d2: DependencyGraph,
    o: Seq<usize>,
    seed: u64,
)
    requires
        crate::analyze::dag_matches(nodes, d1),
        crate::analyze::dag_matches(nodes, d2),
        is_seeded_random_schedule(d1, o, seed),
    ensures
        is_seeded_random_schedule(d2, o, seed),
{
    assert forall|p: int|
        0 <= p < o.len() implies #[trigger] ready_count_at(d2, o, p, o[p] as int) == rng_state_at(
        seed,
        p + 1,
    ) as int % ready_count_at(d2, o, p, d2.num_nodes as int) by {
        lemma_ready_count_dag_equiv(nodes, d1, d2, o, p, o[p] as int);
        lemma_ready_count_dag_equiv(nodes, d1, d2, o, p, d1.num_nodes as int);
    }
}

/// Every member of a stuck set exceeds any bound: each depends on a
/// strictly smaller member, which is impossible without end.
proof fn lemma_stuck_values_at_least(d: DependencyGraph, cert: Set<int>, p: int)
    requires
        stuck_set(d, cert),
        forall|k: int| 0 <= k < d.edges@.len() ==> (#[trigger] d.edges@[k]).0 < d.edges@[k].1,
        p >= 0,
    ensures
        forall|v: int| #[trigger] cert.contains(v) ==> v >= p,
    decreases p,
{
    if p > 0 {
        lemma_stuck_values_at_least(d, cert, p - 1);
        assert forall|v: int| #[trigger] cert.contains(v) implies v >= p by {
            let k = choose|k: int|
                0 <= k < d.edges@.len() && (#[trigger] d.edges@[k]).1 == v && cert.contains(
                    d.edges@[k].0 as int,
                );
            assert(d.edges@[k].0 as int >= p - 1);
        }
    }
}

/// A relation whose every edge points from a smaller to a larger node is
/// never stuck: the DAG the analyzer derives from program order always
/// schedules.
pub proof fn lemma_forward_edges_not_stuck(d: DependencyGraph, cert: Set<int>)
    requires
        forall|k: int| 0 <= k < d.edges@.len() ==> (#[trigger] d.edges@[k]).0 < d.edges@[k].1,
    ensures
        !stuck_set(d, cert),
{
    if stuck_set(d, cert) {
        lemma_stuck_values_at_least(d, cert, d.num_nodes as int);
        assert(exists|v: int| cert.contains(v)) by {
            if forall|v: int| !(#[trigger] cert.contains(v)) {
                assert(cert =~= Set::<int>::empty());
            }
        }
        let v = choose|v: int| cert.contains(v);
        assert(v >= d.num_nodes);
        assert(v < d.num_nodes);
    }
}

/// Execution order is safe for every dependency edge: the producer stands
/// at an earlier position; within one batch the two share a queue, and
/// across queues the consumer's batch comes later in submission order and
/// waits on the fence the producer's batch signals.
pub proof fn lemma_schedule_orders_dependencies(
    d: DependencyGraph,
    s: ScheduleOutput,
    queue_by_pos: Seq<u32>,
    layout: RenderGraphBatchLayout,
    cmd_to_batch: Seq<usize>,
    k: int,
)
    requires
        edges_in_bounds(d),
        valid_schedule(d, s),
        batch_layout_matches(queue_by_pos, layout, cmd_to_batch),
        queue_by_pos.len() == d.num_nodes,
        0 <= k < d.edges@.len(),
    ensures
        s.position@[d.edges@[k].0 as int] < s.position@[d.edges@[k].1 as int],
        cmd_to_batch[s.position@[d.edges@[k].0 as int] as int] <= cmd_to_batch[s.position@[d.edges@[k].1 as int] as int],
        cmd_to_batch[s.position@[d.edges@[k].0 as int] as int] == cmd_to_batch[s.position@[d.edges@[k].1 as int] as int] ==> layout.cmd_batches@[cmd_to_batch[s.position@[d.edges@[k].0 as int] as int] as int].queue_index == layout.cmd_batches@[cmd_to_batch[s.position@[d.edges@[k].1 as int] as int] as int].queue_index,
        layout.cmd_batches@[cmd_to_batch[s.position@[d.edges@[k].0 as int] as int] as int].queue_index
            != layout.cmd_batches@[cmd_to_batch[s.position@[d.edges@[k].1 as int] as int] as int].queue_index
            ==> cmd_to_batch[s.position@[d.edges@[k].0 as int] as int] < cmd_to_batch[s.position@[d.edges@[k].1 as int] as int] && exists|t: int|
            0 <= t < layout.cmd_batches@[cmd_to_batch[s.position@[d.edges@[k].1 as int] as int] as int].num_wait_fences
                && (#[trigger] layout.wait_fence_indices@[layout.cmd_batches@[cmd_to_batch[s.position@[d.edges@[k].1 as int] as int] as int].wait_fences_begin + t])
                == layout.cmd_batches@[cmd_to_batch[s.position@[d.edges@[k].0 as int] as int] as int].signal_fence_index,
{
    let c0 = s.position@[d.edges@[k].0 as int] as int;
    let c1 = s.position@[d.edges@[k].1 as int] as int;
    let b0 = cmd_to_batch[c0] as int;
    let b1 = cmd_to_batch[c1] as int;
    assert(c0 < c1);
    assert(b0 <= b1);
    let bs = layout.cmd_batches@;
    if bs[b0].queue_index != bs[b1].queue_index {
        assert(b0 != b1);
        assert(b0 < b1);
        assert(exists|t: int|
            0 <= t < bs[b1].num_wait_fences && (#[trigger] layout.wait_fence_indices@[bs[b1].wait_fences_begin
                + t]) == b0);
        let t = choose|t: int|
            0 <= t < bs[b1].num_wait_fences && (#[trigger] layout.wait_fence_indices@[bs[b1].wait_fences_begin
                + t]) == b0;
        assert(bs[b0].signal_fence_index == b0);
        assert(layout.wait_fence_indices@[bs[b1].wait_fences_begin + t]
            == bs[b0].signal_fence_index);
    }
}

} // verus!
