//! The transient-resource allocator: assigns heap placements so that
//! resources with overlapping lifetimes never share bytes, while resources
//! whose lifetimes are disjoint may alias the same memory.
//!
//! One heap is kept per memory type, bounded by a caller-supplied budget in
//! MiB. Requests are processed in resource order; each is placed at the
//! lowest aligned offset past every already-placed resource of the same
//! memory type whose lifetime overlaps. That is a conservative greedy
//! packing: aliasing is exact with respect to lifetimes, and the total
//! footprint never exceeds the budget.

use vstd::prelude::*;

use crate::result::RpsError;

verus! {

/// Capabilities of one memory type the backend exposes.
#[derive(Clone, Copy, Debug, PartialEq, Eq, Structural)]
pub struct MemoryTypeInfo {
    pub default_heap_size: u64,
    pub min_alignment: u32,
}

/// The memory demand of one resource: size, alignment and memory type.
#[derive(Clone, Copy, Debug, PartialEq, Eq, Structural)]
pub struct GpuMemoryRequirement {
    pub size: u64,
    pub alignment: u32,
    pub memory_type_index: u32,
}

/// Where one resource landed: the heap (one per memory type) and the byte
/// offset within it.
#[derive(Clone, Copy, Debug, PartialEq, Eq, Structural)]
pub struct HeapPlacement {
    pub heap_id: u32,
    pub offset: u64,
}

/// Usage of one heap, for diagnostics.
#[derive(Clone, Copy, Debug, PartialEq, Eq, Structural)]
pub struct HeapDiagnosticInfo {
    pub size: u64,
    pub used_size: u64,
    pub max_used_size: u64,
    pub alignment: u32,
    pub memory_type_index: u32,
}

/// One allocation request: the resource's lifetime interval in scheduled
/// positions and its memory requirement.
#[derive(Clone, Copy, Debug, PartialEq, Eq, Structural)]
pub struct AllocRequest {
    pub first: u32,
    pub last: u32,
    pub req: GpuMemoryRequirement,
}

/// Whether two lifetime intervals share a position.
pub open spec fn lifetimes_overlap(a: AllocRequest, b: AllocRequest) -> bool {
    a.first <= b.last && b.first <= a.last
}

/// The alignment a request asks for, never less than one byte.
pub open spec fn align_of(r: AllocRequest) -> int {
    if r.req.alignment >= 1 {
        r.req.alignment as int
    } else {
        1
    }
}

/// The byte budget a MiB count grants.
pub open spec fn budget_bytes(mib: u32) -> int {
    mib * 0x10_0000
}

/// The worst-case bytes the greedy packing can consume for the requests
/// among the first `i` that use memory type `mt`: each costs its size plus
/// its alignment slack.
pub open spec fn demand_prefix(reqs: Seq<Option<AllocRequest>>, mt: int, i: int) -> int
    decreases i,
{
    if i <= 0 {
        0
    } else {
        demand_prefix(reqs, mt, i - 1) + (if reqs[i - 1] is Some && reqs[i
            - 1]->0.req.memory_type_index == mt {
            reqs[i - 1]->0.req.size + align_of(reqs[i - 1]->0) - 1
        } else {
            0
        })
    }
}

/// The demand of a longer prefix is no smaller.
pub proof fn lemma_demand_prefix_mono(reqs: Seq<Option<AllocRequest>>, mt: int, i: int, j: int)
    requires
        0 <= i <= j,
    ensures
        demand_prefix(reqs, mt, i) <= demand_prefix(reqs, mt, j),
    decreases j,
{
    if i < j {
        lemma_demand_prefix_mono(reqs, mt, i, j - 1);
    }
}

/// Rounds `offset` up to the next multiple of `align`.
fn align_up(offset: u64, align: u64) -> (r: u64)
    requires
        align >= 1,
        offset + align <= 0xFFFF_FFFF_FFFF_FFFF,
    ensures
        r as int % align as int == 0,
        offset <= r < offset + align,
{
    let rem = offset % align;
    if rem == 0 {
        offset
    } else {
        let r = offset + (align - rem);
        proof {
            let o = offset as int;
            let a = align as int;
            let m = o % a;
            assert((o + (a - m)) % a == 0) by (nonlinear_arith)
                requires
                    a >= 1,
                    m == o % a,
                    m != 0,
            ;
        }
        r
    }
}

/// Whether the request's memory type exists among the budgets.
pub open spec fn request_type_valid(r: Option<AllocRequest>, num_types: int) -> bool {
    r is Some ==> r->0.req.memory_type_index < num_types
}

/// Whether placement `i` packs tightly: its offset is zero, or it lies
/// within one alignment step past the end of an earlier placement of the
/// same heap whose lifetime overlaps. In particular, a resource without
/// any live conflict is placed at offset zero, so memory is fully reused
/// across disjoint lifetimes.
pub open spec fn offset_justified(
    requests: Seq<Option<AllocRequest>>,
    p: Seq<Option<HeapPlacement>>,
    i: int,
) -> bool {
    p[i]->0.offset == 0 || exists|j: int|
        0 <= j < i && (#[trigger] requests[j]) is Some && requests[j]->0.req.memory_type_index
            == requests[i]->0.req.memory_type_index && lifetimes_overlap(
            requests[j]->0,
            requests[i]->0,
        ) && p[j]->0.offset + requests[j]->0.req.size <= p[i]->0.offset && p[i]->0.offset
            < p[j]->0.offset + requests[j]->0.req.size + align_of(requests[i]->0)
}

/// A requested resource whose lifetime overlaps no earlier request of its
/// memory type is placed at offset zero: two resources with disjoint
/// lifetimes on one memory type fully reuse the same memory instead of
/// claiming it twice.
pub proof fn lemma_no_conflict_places_at_zero(
    requests: Seq<Option<AllocRequest>>,
    p: Seq<Option<HeapPlacement>>,
    i: int,
)
    requires
        p.len() == requests.len(),
        0 <= i < requests.len(),
        requests[i] is Some,
        offset_justified(requests, p, i),
        forall|j: int|
            0 <= j < i && (#[trigger] requests[j]) is Some && requests[j]->0.req.memory_type_index
                == requests[i]->0.req.memory_type_index ==> !lifetimes_overlap(
                requests[j]->0,
                requests[i]->0,
            ),
    ensures
        p[i]->0.offset == 0,
{
    if p[i]->0.offset != 0 {
        let j = choose|j: int|
            0 <= j < i && (#[trigger] requests[j]) is Some && requests[j]->0.req.memory_type_index
                == requests[i]->0.req.memory_type_index && lifetimes_overlap(
                requests[j]->0,
                requests[i]->0,
            ) && p[j]->0.offset + requests[j]->0.req.size <= p[i]->0.offset && p[i]->0.offset
                < p[j]->0.offset + requests[j]->0.req.size + align_of(requests[i]->0);
        assert(!lifetimes_overlap(requests[j]->0, requests[i]->0));
    }
}

/// Assigns a heap placement to every requested resource, aliasing memory
/// across disjoint lifetimes.
///
/// On success every placement sits in the heap of its memory type, at an
/// offset aligned as requested, within the budget, and no two placements
/// of the same heap with overlapping lifetimes share a byte; every offset
/// is zero or justified by a conflicting earlier placement it packs
/// against, so memory is reused across disjoint lifetimes. Fails with
/// `ValidationFailed` exactly when some request names a memory type
/// outside the budget list (the first such request decides), and with
/// `OutOfMemory` only when the worst-case demand of some memory type
/// truly exceeds its budget; it is guaranteed to succeed when every
/// request's type is budgeted, no two requests of one memory type have
/// overlapping lifetimes, and each request alone fits its budget.
#[verifier::spinoff_prover]
#[verifier::rlimit(100)]
pub fn allocate_transients(
    requests: &Vec<Option<AllocRequest>>,
    heap_budget_mibs: &Vec<u32>,
) -> (r: Result<Vec<Option<HeapPlacement>>, RpsError>)
    ensures
        match r {
            Ok(p) => {
                &&& p@.len() == requests@.len()
                &&& forall|i: int|
                    0 <= i < p@.len() ==> ((#[trigger] p@[i]) is Some <==> requests@[i] is Some)
                &&& forall|i: int|
                    0 <= i < p@.len() && (#[trigger] requests@[i]) is Some ==> {
                        let q = requests@[i]->0;
                        let pl = p@[i]->0;
                        &&& pl.heap_id == q.req.memory_type_index
                        &&& q.req.memory_type_index < heap_budget_mibs@.len()
                        &&& pl.offset as int % align_of(q) == 0
                        &&& pl.offset + q.req.size <= budget_bytes(
                            heap_budget_mibs@[q.req.memory_type_index as int],
                        )
                    }
                &&& forall|i: int, j: int|
                    0 <= i < j < p@.len() && (#[trigger] requests@[i]) is Some && (
                    #[trigger] requests@[j]) is Some && requests@[i]->0.req.memory_type_index
                        == requests@[j]->0.req.memory_type_index && lifetimes_overlap(
                        requests@[i]->0,
                        requests@[j]->0,
                    ) ==> p@[i]->0.offset + requests@[i]->0.req.size <= p@[j]->0.offset
                        || p@[j]->0.offset + requests@[j]->0.req.size <= p@[i]->0.offset
                &&& forall|i: int|
                    0 <= i < p@.len() && (#[trigger] requests@[i]) is Some ==> offset_justified(
                        requests@,
                        p@,
                        i,
                    )
            },
            Err(e) => {
                &&& (e == RpsError::ValidationFailed <==> exists|i: int|
                    0 <= i < requests@.len() && !request_type_valid(
                        #[trigger] requests@[i],
                        heap_budget_mibs@.len() as int,
                    ))
                &&& (e == RpsError::OutOfMemory ==> exists|mt: int|
                    0 <= mt < heap_budget_mibs@.len() && demand_prefix(
                        requests@,
                        mt,
                        requests@.len() as int,
                    ) > budget_bytes(#[trigger] heap_budget_mibs@[mt]))
                &&& (e == RpsError::ValidationFailed || e == RpsError::OutOfMemory)
            },
        },
        ((forall|i: int, j: int|
            0 <= i < j < requests@.len() && (#[trigger] requests@[i]) is Some && (
            #[trigger] requests@[j]) is Some && requests@[i]->0.req.memory_type_index
                == requests@[j]->0.req.memory_type_index ==> !lifetimes_overlap(
                requests@[i]->0,
                requests@[j]->0,
            )) && (forall|i: int|
            0 <= i < requests@.len() && (#[trigger] requests@[i]) is Some
                ==> requests@[i]->0.req.memory_type_index < heap_budget_mibs@.len()
                && requests@[i]->0.req.size <= budget_bytes(
                heap_budget_mibs@[requests@[i]->0.req.memory_type_index as int],
            ))) ==> r is Ok,
{
    let n = requests.len();
    let num_types = heap_budget_mibs.len();
    let mut i: usize = 0;
    while i < n
        invariant
            n == requests@.len(),
            num_types == heap_budget_mibs@.len(),
            0 <= i <= n,
            forall|j: int|
                0 <= j < i ==> request_type_valid(#[trigger] requests@[j], num_types as int),
        decreases n - i,
    {
        match requests[i] {
            Some(q) => {
                if q.req.memory_type_index as usize >= num_types {
                    return Err(RpsError::ValidationFailed);
                }
            },
            None => {},
        }
        i = i + 1;
    }
    let mut placements: Vec<Option<HeapPlacement>> = Vec::new();
    i = 0;
    while i < n
        invariant
            n == requests@.len(),
            num_types == heap_budget_mibs@.len(),
            0 <= i <= n,
            placements@.len() == i,
            forall|j: int|
                0 <= j < n ==> request_type_valid(#[trigger] requests@[j], num_types as int),
            forall|j: int|
                0 <= j < i ==> ((#[trigger] placements@[j]) is Some <==> requests@[j] is Some),
            forall|j: int|
                0 <= j < i && (#[trigger] requests@[j]) is Some ==> {
                    let q = requests@[j]->0;
                    let pl = placements@[j]->0;
                    &&& pl.heap_id == q.req.memory_type_index
                    &&& pl.offset as int % align_of(q) == 0
                    &&& pl.offset + q.req.size <= budget_bytes(
                        heap_budget_mibs@[q.req.memory_type_index as int],
                    )
                    &&& pl.offset + q.req.size <= demand_prefix(
                        requests@,
                        q.req.memory_type_index as int,
                        j + 1,
                    )
                },
            forall|j1: int, j2: int|
                0 <= j1 < j2 < i && (#[trigger] requests@[j1]) is Some && (
                #[trigger] requests@[j2]) is Some && requests@[j1]->0.req.memory_type_index
                    == requests@[j2]->0.req.memory_type_index && lifetimes_overlap(
                    requests@[j1]->0,
                    requests@[j2]->0,
                ) ==> placements@[j1]->0.offset + requests@[j1]->0.req.size
                    <= placements@[j2]->0.offset || placements@[j2]->0.offset
                    + requests@[j2]->0.req.size <= placements@[j1]->0.offset,
            forall|j: int|
                0 <= j < i && (#[trigger] requests@[j]) is Some ==> offset_justified(
                    requests@,
                    placements@,
                    j,
                ),
        decreases n - i,
    {
        match requests[i] {
            None => {
                placements.push(None);
            },
            Some(q) => {
                let mt = q.req.memory_type_index;
                let budget: u64 = (heap_budget_mibs[mt as usize] as u64) * 0x10_0000;
                // the lowest free point past every conflicting placement,
                // and the placement that set it
                let mut cur: u64 = 0;
                let ghost mut wit: int = -1;
                proof {
                    lemma_demand_prefix_mono(requests@, mt as int, 0, i as int);
                }
                let mut l: usize = 0;
                while l < i
                    invariant
                        n == requests@.len(),
                        num_types == heap_budget_mibs@.len(),
                        0 <= l <= i <= n,
                        i < n,
                        placements@.len() == i,
                        requests@[i as int] == Some(q),
                        mt == q.req.memory_type_index,
                        forall|j: int|
                            0 <= j < n ==> request_type_valid(
                                #[trigger] requests@[j],
                                num_types as int,
                            ),
                        budget == budget_bytes(heap_budget_mibs@[mt as int]),
                        forall|j: int|
                            0 <= j < i ==> ((#[trigger] placements@[j]) is Some <==> requests@[j] is Some),
                        forall|j: int|
                            0 <= j < i && (#[trigger] requests@[j]) is Some ==> {
                                let qj = requests@[j]->0;
                                let pl = placements@[j]->0;
                                &&& pl.offset + qj.req.size <= budget_bytes(
                                    heap_budget_mibs@[qj.req.memory_type_index as int],
                                )
                                &&& pl.offset + qj.req.size <= demand_prefix(
                                    requests@,
                                    qj.req.memory_type_index as int,
                                    j + 1,
                                )
                            },
                        cur <= budget,
                        cur <= demand_prefix(requests@, mt as int, i as int),
                        forall|j: int|
                            0 <= j < l && (#[trigger] requests@[j]) is Some
                                && requests@[j]->0.req.memory_type_index == mt
                                && lifetimes_overlap(requests@[j]->0, q) ==> placements@[j]->0.offset
                                + requests@[j]->0.req.size <= cur,
                        wit < 0 ==> cur == 0,
                        wit >= 0 ==> 0 <= wit < l && (#[trigger] requests@[wit]) is Some
                            && requests@[wit]->0.req.memory_type_index == mt && lifetimes_overlap(
                            requests@[wit]->0,
                            q,
                        ) && placements@[wit]->0.offset + requests@[wit]->0.req.size == cur,
                    decreases i - l,
                {
                    match placements[l] {
                        Some(pl) => {
                            let ql = requests[l].unwrap();
                            if ql.req.memory_type_index == mt && ql.first <= q.last && q.first
                                <= ql.last {
                                let end = pl.offset + ql.req.size;
                                if end > cur {
                                    proof {
                                        lemma_demand_prefix_mono(
                                            requests@,
                                            mt as int,
                                            l + 1,
                                            i as int,
                                        );
                                        wit = l as int;
                                    }
                                    cur = end;
                                }
                            }
                        },
                        None => {},
                    }
                    l = l + 1;
                }
                let align: u64 = if q.req.alignment >= 1 {
                    q.req.alignment as u64
                } else {
                    1
                };
                proof {
                    lemma_demand_prefix_mono(requests@, mt as int, 0, i as int);
                    assert(demand_prefix(requests@, mt as int, i + 1) == demand_prefix(
                        requests@,
                        mt as int,
                        i as int,
                    ) + q.req.size + align_of(q) - 1);
                }
                if q.req.size > budget {
                    proof {
                        lemma_demand_prefix_mono(requests@, mt as int, i + 1, n as int);
                    }
                    return Err(RpsError::OutOfMemory);
                }
                let offset = align_up(cur, align);
                proof {
                    if wit < 0 {
                        assert(offset == 0) by (nonlinear_arith)
                            requires
                                align >= 1,
                                0 <= offset < align,
                                offset as int % align as int == 0,
                        ;
                    }
                }
                if offset > budget - q.req.size {
                    proof {
                        lemma_demand_prefix_mono(requests@, mt as int, i + 1, n as int);
                    }
                    return Err(RpsError::OutOfMemory);
                }
                let ghost p0 = placements@;
                placements.push(Some(HeapPlacement { heap_id: mt, offset }));
                proof {
                    assert(placements@[i as int]->0.offset + q.req.size <= demand_prefix(
                        requests@,
                        mt as int,
                        i + 1,
                    ));
                    assert forall|j: int|
                        0 <= j < i + 1 && (#[trigger] requests@[j]) is Some implies
                    offset_justified(requests@, placements@, j) by {
                        if j < i as int {
                            assert(offset_justified(requests@, p0, j));
                            if p0[j]->0.offset != 0 {
                                let jj = choose|jj: int|
                                    0 <= jj < j && (#[trigger] requests@[jj]) is Some
                                        && requests@[jj]->0.req.memory_type_index
                                        == requests@[j]->0.req.memory_type_index
                                        && lifetimes_overlap(requests@[jj]->0, requests@[j]->0)
                                        && p0[jj]->0.offset + requests@[jj]->0.req.size
                                        <= p0[j]->0.offset && p0[j]->0.offset < p0[jj]->0.offset
                                        + requests@[jj]->0.req.size + align_of(requests@[j]->0);
                                assert(placements@[jj] == p0[jj] && placements@[j] == p0[j]);
                            }
                        } else {
                            assert(requests@[i as int] == Some(q));
                            if wit >= 0 {
                                assert(placements@[wit] == p0[wit]);
                                assert(placements@[wit]->0.offset + requests@[wit]->0.req.size
                                    == cur);
                                assert(cur <= offset < cur + align);
                                assert(align == align_of(requests@[i as int]->0));
                            } else {
                                assert(offset == 0);
                            }
                        }
                    }
                }
            },
        }
        i = i + 1;
    }
    Ok(placements)
}

} // verus!
