//! The render graph: one object tying the builder, the dependency and
//! lifetime analysis, the scheduler, the allocator and the transition
//! generator into a single update pass.
//!
//! An update either completes and replaces the finalized state, or fails
//! and leaves the previous state untouched; no partial schedule is ever
//! exposed.

use vstd::prelude::*;

use crate::allocator::{
    allocate_transients, budget_bytes, demand_prefix, AllocRequest, GpuMemoryRequirement,
    HeapPlacement,
};
use crate::analyze::{
    build_dependencies, compute_lifetimes, dep_edge, edge_in, node_touches, LifetimeInterval,
};
use crate::barrier::{all_transitions, generate_transitions, CmdDiagnosticInfo};
use crate::format::{format_element_bytes_of, Format, FMT_UNKNOWN};
use crate::graph::{
    effective_format, formats_determinable, graph_wf, NodeDeclFlags, RenderGraphBuilder,
    ResourceDecl, NODE_DECL_COMPUTE, NODE_DECL_COPY, NODE_DECL_GRAPHICS,
};
use crate::resource::{buffer_size_in_bytes, ResourceBufferImageDesc, ResourceDesc};
use crate::result::RpsError;
use crate::schedule::{
    batch_layout_matches, build_batches, lemma_forward_edges_not_stuck, schedule_nodes,
    valid_schedule, QueueFlags, RenderGraphBatchLayout, ScheduleFlags, ScheduleOutput,
    MAX_SCHEDULE_NODES, SCHEDULE_PREFER_MEMORY_SAVING,
};

verus! {

/// Flags selecting diagnostic output of an update.
pub type DiagnosticFlags = u32;

pub const DIAGNOSTIC_NONE: DiagnosticFlags = 0;
pub const DIAGNOSTIC_ENABLE_PRE_SCHEDULE_DUMP: DiagnosticFlags = 1u32 << 0;
pub const DIAGNOSTIC_ENABLE_POST_SCHEDULE_DUMP: DiagnosticFlags = 1u32 << 1;
pub const DIAGNOSTIC_ENABLE_DAG_DUMP: DiagnosticFlags = 1u32 << 2;
pub const DIAGNOSTIC_ENABLE_SOURCE_LOCATION: DiagnosticFlags = 1u32 << 3;
pub const DIAGNOSTIC_ENABLE_RUNTIME_DEBUG_NAMES: DiagnosticFlags = 1u32 << 4;

/// Flags of a whole render graph.
pub type RenderGraphFlags = u32;

pub const RENDER_GRAPH_FLAG_NONE: RenderGraphFlags = 0;
pub const RENDER_GRAPH_DISALLOW_UNBOUND_NODES: RenderGraphFlags = 1u32 << 0;
pub const RENDER_GRAPH_NO_GPU_MEMORY_ALIASING: RenderGraphFlags = 1u32 << 1;

pub const MAX_QUEUED_FRAMES: usize = 16;

pub const GPU_COMPLETED_FRAME_INDEX_NONE: u64 = 0xFFFF_FFFF_FFFF_FFFF;

/// The largest resource count one graph can index.
pub const MAX_GRAPH_RESOURCES: usize = 0xFFFF_FFFE;

/// How the scheduler should run and which queues exist.
#[derive(Debug, PartialEq, Eq)]
pub struct RenderGraphCreateScheduleInfo {
    pub schedule_flags: ScheduleFlags,
    pub num_queues: u32,
    pub queue_infos: Vec<QueueFlags>,
}

/// The per-memory-type budgets of one graph, in MiB.
#[derive(Debug, PartialEq, Eq)]
pub struct RenderGraphCreateMemoryInfo {
    pub heap_budget_mibs: Vec<u32>,
}

/// What one update pass should do.
#[derive(Clone, Copy, Debug, PartialEq, Eq, Structural)]
pub struct RenderGraphUpdateInfo {
    pub frame_index: u64,
    pub gpu_completed_frame_index: u64,
    pub schedule_flags: ScheduleFlags,
    pub diagnostic_flags: DiagnosticFlags,
    pub random_seed: u64,
}

/// The queue capability a node's declaration class asks for; a node
/// without a class runs as graphics work.
pub open spec fn class_queue_flag(flags: NodeDeclFlags) -> u32 {
    if flags & NODE_DECL_GRAPHICS != 0 {
        crate::schedule::QUEUE_FLAG_GRAPHICS
    } else if flags & NODE_DECL_COMPUTE != 0 {
        crate::schedule::QUEUE_FLAG_COMPUTE
    } else if flags & NODE_DECL_COPY != 0 {
        crate::schedule::QUEUE_FLAG_COPY
    } else {
        crate::schedule::QUEUE_FLAG_GRAPHICS
    }
}

/// The first queue at or after `i` whose flags hold the capability, or -1
/// when none does.
pub open spec fn first_capable_queue(queues: Seq<QueueFlags>, cap: u32, i: int) -> int
    decreases queues.len() - i,
{
    if i < 0 || i >= queues.len() {
        -1
    } else if queues[i] & cap != 0 {
        i
    } else {
        first_capable_queue(queues, cap, i + 1)
    }
}

/// The queues one graph schedules onto: the first `num_queues` entries of
/// the configured queue list.
pub open spec fn effective_queues(si: RenderGraphCreateScheduleInfo) -> Seq<QueueFlags> {
    let l = if si.num_queues as int <= si.queue_infos@.len() {
        si.num_queues as int
    } else {
        si.queue_infos@.len() as int
    };
    si.queue_infos@.subrange(0, l)
}

/// How many queue indices batches may use: the configured count, or a
/// single default queue when the configuration is empty.
pub open spec fn effective_queue_count(si: RenderGraphCreateScheduleInfo) -> int {
    if effective_queues(si).len() == 0 {
        1
    } else {
        effective_queues(si).len() as int
    }
}

/// The queue a node runs on: the first configured queue capable of its
/// class, or queue 0 when none is.
pub open spec fn queue_for(flags: NodeDeclFlags, queues: Seq<QueueFlags>) -> u32 {
    let f = first_capable_queue(queues, class_queue_flag(flags), 0);
    if f >= 0 {
        f as u32
    } else {
        0
    }
}

/// The queue index a node's declaration flags select among the configured
/// queues.
pub fn queue_index_for(flags: NodeDeclFlags, queues: &Vec<QueueFlags>) -> (r: u32)
    requires
        queues@.len() <= 0xFFFF_FFFF,
    ensures
        r == queue_for(flags, queues@),
        (r as int) < (if queues@.len() == 0 {
            1int
        } else {
            queues@.len() as int
        }),
{
    let cap: u32 = if flags & NODE_DECL_GRAPHICS != 0 {
        crate::schedule::QUEUE_FLAG_GRAPHICS
    } else if flags & NODE_DECL_COMPUTE != 0 {
        crate::schedule::QUEUE_FLAG_COMPUTE
    } else if flags & NODE_DECL_COPY != 0 {
        crate::schedule::QUEUE_FLAG_COPY
    } else {
        crate::schedule::QUEUE_FLAG_GRAPHICS
    };
    let mut i: usize = 0;
    while i < queues.len()
        invariant
            cap == class_queue_flag(flags),
            queues@.len() <= 0xFFFF_FFFF,
            0 <= i <= queues@.len(),
            first_capable_queue(queues@, cap, 0) == first_capable_queue(queues@, cap, i as int),
        decreases queues@.len() - i,
    {
        if queues[i] & cap != 0 {
            return i as u32;
        }
        i = i + 1;
    }
    0
}

/// The product of two byte quantities, saturated at the largest 64-bit
/// value.
pub open spec fn sat_mul(a: int, b: int) -> int {
    if a * b > 0xFFFF_FFFF_FFFF_FFFF {
        0xFFFF_FFFF_FFFF_FFFF
    } else {
        a * b
    }
}

/// Multiplies two sizes, saturating at the largest 64-bit value.
fn mul_sat(a: u64, b: u64) -> (r: u64)
    ensures
        r as int == sat_mul(a as int, b as int),
{
    if a == 0 {
        0
    } else {
        let q = 0xFFFF_FFFF_FFFF_FFFFu64 / a;
        if b > q {
            proof {
                let ai = a as int;
                let bi = b as int;
                let m: int = 0xFFFF_FFFF_FFFF_FFFF;
                assert(ai * bi > m) by (nonlinear_arith)
                    requires
                        ai >= 1,
                        bi >= m / ai + 1,
                        m >= 0,
                ;
            }
            0xFFFF_FFFF_FFFF_FFFFu64
        } else {
            proof {
                let ai = a as int;
                let bi = b as int;
                let m: int = 0xFFFF_FFFF_FFFF_FFFF;
                assert(ai * bi <= m) by (nonlinear_arith)
                    requires
                        ai >= 1,
                        0 <= bi <= m / ai,
                        m >= 0,
                ;
            }
            a * b
        }
    }
}

/// The default placement alignment of an engine-allocated resource.
pub const RESOURCE_DEFAULT_ALIGNMENT: u32 = 256;

/// The conservative byte size estimate of a resource: a buffer's declared
/// size; for an image, extent times element bytes times samples, times the
/// mip level count as an over-approximation of the mip chain.
pub open spec fn resource_size_bytes(desc: ResourceDesc, fmt: Format) -> int {
    match desc.buffer_image {
        ResourceBufferImageDesc::Buffer(b) => buffer_size_in_bytes(b),
        ResourceBufferImageDesc::Image(img) => sat_mul(
            sat_mul(
                sat_mul(
                    sat_mul(sat_mul(img.width as int, img.height as int),
                    img.depth_or_array_layers as int),
                    format_element_bytes_of(fmt) as int,
                ),
                img.sample_count as int,
            ),
            img.mip_levels as int,
        ),
    }
}

/// The memory requirement of a resource: its size estimate, the default
/// alignment, and memory type 0, where all engine resources live.
pub open spec fn requirement_of(desc: ResourceDesc, fmt: Format) -> GpuMemoryRequirement {
    GpuMemoryRequirement {
        size: resource_size_bytes(desc, fmt) as u64,
        alignment: RESOURCE_DEFAULT_ALIGNMENT,
        memory_type_index: 0,
    }
}

/// Computes the memory requirement of a resource, sized by the given
/// resolved format.
pub fn resource_requirement(desc: &ResourceDesc, fmt: Format) -> (r: GpuMemoryRequirement)
    ensures
        r == requirement_of(*desc, fmt),
{
    let size: u64 = match desc.buffer_image {
        ResourceBufferImageDesc::Buffer(b) => (b.size_in_bytes_hi as u64) * 0x1_0000_0000 + (
        b.size_in_bytes_lo as u64),
        ResourceBufferImageDesc::Image(img) => {
            let s0 = mul_sat(img.width as u64, img.height as u64);
            let s1 = mul_sat(s0, img.depth_or_array_layers as u64);
            let s2 = mul_sat(s1, fmt.element_bytes() as u64);
            let s3 = mul_sat(s2, img.sample_count as u64);
            mul_sat(s3, img.mip_levels as u64)
        },
    };
    GpuMemoryRequirement {
        size,
        alignment: RESOURCE_DEFAULT_ALIGNMENT,
        memory_type_index: 0,
    }
}

/// The allocation request one resource contributes: transient resources
/// with at least one touch are allocated over their access interval, and
/// over the whole schedule when flagged persistent; external or untouched
/// ones are not allocated.
pub open spec fn request_for(
    decl: ResourceDecl,
    lifetime: Option<LifetimeInterval>,
    fmt: Format,
    n: int,
) -> Option<AllocRequest> {
    if !decl.is_external && lifetime is Some {
        if decl.desc.flags & crate::resource::RESOURCE_FLAG_PERSISTENT != 0 {
            Some(
                AllocRequest {
                    first: 0,
                    last: (n - 1) as u32,
                    req: requirement_of(decl.desc, fmt),
                },
            )
        } else {
            Some(
                AllocRequest {
                    first: lifetime->0.first,
                    last: lifetime->0.last,
                    req: requirement_of(decl.desc, fmt),
                },
            )
        }
    } else {
        None
    }
}

/// The worst case: every transient resource allocated, whatever its
/// lifetime. Its demand bounds the demand of any actual update.
pub open spec fn full_requests(g: RenderGraphBuilder) -> Seq<Option<AllocRequest>> {
    Seq::new(
        g.resources@.len(),
        |i: int|
            if !g.resources@[i].is_external {
                Some(
                    AllocRequest {
                        first: 0,
                        last: 0,
                        req: requirement_of(g.resources@[i].desc, effective_format(g, i)),
                    },
                )
            } else {
                None
            },
    )
}

/// The allocation request resource `i` contributed to the finalized
/// update: its (possibly schedule-spanning) interval and requirement.
pub open spec fn request_of(g: RenderGraph, i: int) -> Option<AllocRequest> {
    request_for(
        g.builder.resources@[i],
        g.lifetimes@[i],
        effective_format(g.builder, i),
        g.builder.nodes@.len() as int,
    )
}

/// Placements the allocator justified against the request list are
/// justified against the finalized graph's own requests.
proof fn lemma_placements_justified(g: RenderGraph, requests: Seq<Option<AllocRequest>>)
    requires
        g.placements@.len() == requests.len(),
        requests.len() == g.builder.resources@.len(),
        forall|i: int| 0 <= i < requests.len() ==> (#[trigger] requests[i]) == request_of(g, i),
        forall|i: int|
            0 <= i < requests.len() ==> ((#[trigger] g.placements@[i]) is Some <==> requests[i] is Some),
        forall|i: int|
            0 <= i < requests.len() && (#[trigger] requests[i]) is Some
                ==> crate::allocator::offset_justified(requests, g.placements@, i),
    ensures
        forall|i: int|
            0 <= i < g.builder.resources@.len() && (#[trigger] g.placements@[i]) is Some ==> (
            g.placements@[i]->0.offset == 0 || exists|j: int|
                0 <= j < i && (#[trigger] g.placements@[j]) is Some && request_of(
                    g,
                    j,
                )->0.req.memory_type_index == request_of(g, i)->0.req.memory_type_index
                    && crate::allocator::lifetimes_overlap(request_of(g, j)->0, request_of(g, i)->0)
                    && g.placements@[j]->0.offset + request_of(g, j)->0.req.size
                    <= g.placements@[i]->0.offset && g.placements@[i]->0.offset
                    < g.placements@[j]->0.offset + request_of(g, j)->0.req.size
                    + crate::allocator::align_of(request_of(g, i)->0)),
{
    assert forall|i2: int|
        0 <= i2 < g.builder.resources@.len() && (
        #[trigger] g.placements@[i2]) is Some implies (g.placements@[i2]->0.offset == 0 || exists|j: int|
        0 <= j < i2 && (#[trigger] g.placements@[j]) is Some && request_of(
            g,
            j,
        )->0.req.memory_type_index == request_of(g, i2)->0.req.memory_type_index
            && crate::allocator::lifetimes_overlap(request_of(g, j)->0, request_of(g, i2)->0)
            && g.placements@[j]->0.offset + request_of(g, j)->0.req.size
            <= g.placements@[i2]->0.offset && g.placements@[i2]->0.offset
            < g.placements@[j]->0.offset + request_of(g, j)->0.req.size
            + crate::allocator::align_of(request_of(g, i2)->0)) by {
        assert(crate::allocator::offset_justified(requests, g.placements@, i2));
        if g.placements@[i2]->0.offset != 0 {
            let j = choose|j: int|
                0 <= j < i2 && (#[trigger] requests[j]) is Some
                    && requests[j]->0.req.memory_type_index
                    == requests[i2]->0.req.memory_type_index
                    && crate::allocator::lifetimes_overlap(requests[j]->0, requests[i2]->0)
                    && g.placements@[j]->0.offset + requests[j]->0.req.size
                    <= g.placements@[i2]->0.offset && g.placements@[i2]->0.offset
                    < g.placements@[j]->0.offset + requests[j]->0.req.size
                    + crate::allocator::align_of(requests[i2]->0);
            assert(requests[j] == request_of(g, j));
            assert(g.placements@[j] is Some);
        }
    }
}

/// Pointwise-dominated request lists demand no more memory.
proof fn lemma_demand_dominated(
    r1: Seq<Option<AllocRequest>>,
    r2: Seq<Option<AllocRequest>>,
    mt: int,
    i: int,
)
    requires
        r1.len() == r2.len(),
        0 <= i <= r1.len(),
        forall|j: int|
            0 <= j < r1.len() && (#[trigger] r1[j]) is Some ==> r2[j] is Some && r2[j]->0.req
                == r1[j]->0.req,
    ensures
        demand_prefix(r1, mt, i) <= demand_prefix(r2, mt, i),
    decreases i,
{
    if i > 0 {
        lemma_demand_dominated(r1, r2, mt, i - 1);
    }
}

/// The queue of the command at each position of an order.
fn queues_by_position(queue_class: &Vec<u32>, order: &Vec<usize>) -> (r: Vec<u32>)
    requires
        forall|p: int| 0 <= p < order@.len() ==> (#[trigger] order@[p]) < queue_class@.len(),
    ensures
        r@.len() == order@.len(),
        forall|p: int| 0 <= p < r@.len() ==> (#[trigger] r@[p]) == queue_class@[order@[p] as int],
{
    let mut r: Vec<u32> = Vec::new();
    let mut p: usize = 0;
    while p < order.len()
        invariant
            forall|p2: int| 0 <= p2 < order@.len() ==> (#[trigger] order@[p2]) < queue_class@.len(),
            0 <= p <= order@.len(),
            r@.len() == p,
            forall|p2: int|
                0 <= p2 < p ==> (#[trigger] r@[p2]) == queue_class@[order@[p2] as int],
        decreases order@.len() - p,
    {
        r.push(queue_class[order[p]]);
        p = p + 1;
    }
    r
}

/// A built render graph together with its finalized schedule, batch
/// layout, allocation and transitions.
pub struct RenderGraph {
    pub builder: RenderGraphBuilder,
    pub schedule_info: RenderGraphCreateScheduleInfo,
    pub heap_budget_mibs: Vec<u32>,
    /// Whether an update has completed since the last change.
    pub valid: bool,
    pub order: Vec<usize>,
    pub position: Vec<usize>,
    pub queue_by_pos: Vec<u32>,
    pub batch_layout: RenderGraphBatchLayout,
    pub cmd_to_batch: Vec<usize>,
    pub lifetimes: Vec<Option<LifetimeInterval>>,
    pub placements: Vec<Option<HeapPlacement>>,
    pub transitions: Vec<CmdDiagnosticInfo>,
}

/// The finalized state is consistent with the graph: the order is a
/// topological permutation of the nodes under the derived hazard relation,
/// the batch layout groups it by queue, lifetimes are the access intervals
/// under that order, placements alias memory only across disjoint
/// lifetimes, and the transitions are exactly those of the schedule.
pub open spec fn render_graph_compiled(g: RenderGraph) -> bool {
    let n = g.builder.nodes@.len() as int;
    let nodes = g.builder.nodes@;
    let resources = g.builder.resources@;
    &&& g.order@.len() == n
    &&& g.position@.len() == n
    &&& forall|p: int| 0 <= p < n ==> (#[trigger] g.order@[p]) < n
    &&& forall|v: int|
        0 <= v < n ==> (#[trigger] g.position@[v]) < n && g.order@[g.position@[v] as int] == v
    &&& forall|p: int| 0 <= p < n ==> g.position@[(#[trigger] g.order@[p]) as int] == p
    &&& forall|i: int, j: int|
        #[trigger] dep_edge(nodes, i, j) ==> g.position@[i] < g.position@[j]
    &&& g.queue_by_pos@.len() == n
    &&& forall|p: int|
        0 <= p < n ==> (#[trigger] g.queue_by_pos@[p]) == queue_for(
            nodes[g.order@[p] as int].flags,
            effective_queues(g.schedule_info),
        )
    &&& forall|p: int|
        0 <= p < n ==> (#[trigger] g.queue_by_pos@[p]) < effective_queue_count(g.schedule_info)
    &&& batch_layout_matches(g.queue_by_pos@, g.batch_layout, g.cmd_to_batch@)
    &&& forall|b: int|
        0 <= b < g.batch_layout.cmd_batches@.len() ==> (
        #[trigger] g.batch_layout.cmd_batches@[b]).queue_index < effective_queue_count(
            g.schedule_info,
        )
    &&& g.lifetimes@.len() == resources.len()
    &&& forall|rid: int, p: int|
        0 <= rid < resources.len() && 0 <= p < n && node_touches(#[trigger] nodes[p], rid) ==> (
        #[trigger] g.lifetimes@[rid]) is Some && g.lifetimes@[rid]->0.first <= g.position@[p]
            && g.position@[p] <= g.lifetimes@[rid]->0.last
    &&& forall|rid: int|
        0 <= rid < resources.len() && (#[trigger] g.lifetimes@[rid]) is Some ==> (exists|p: int|
            0 <= p < n && #[trigger] node_touches(nodes[p], rid) && g.position@[p]
                == g.lifetimes@[rid]->0.first) && (exists|p: int|
            0 <= p < n && #[trigger] node_touches(nodes[p], rid) && g.position@[p]
                == g.lifetimes@[rid]->0.last)
    &&& g.placements@.len() == resources.len()
    &&& forall|i: int|
        0 <= i < resources.len() ==> ((#[trigger] g.placements@[i]) is Some <==> (
        !resources[i].is_external && g.lifetimes@[i] is Some))
    &&& forall|i: int|
        0 <= i < resources.len() && (#[trigger] g.placements@[i]) is Some ==> {
            let q = requirement_of(resources[i].desc, effective_format(g.builder, i));
            &&& g.placements@[i]->0.heap_id == q.memory_type_index
            &&& q.memory_type_index < g.heap_budget_mibs@.len()
            &&& g.placements@[i]->0.offset as int % (if q.alignment >= 1 {
                q.alignment as int
            } else {
                1
            }) == 0
            &&& g.placements@[i]->0.offset + q.size <= budget_bytes(
                g.heap_budget_mibs@[q.memory_type_index as int],
            )
        }
    &&& forall|i: int, j: int|
        0 <= i < j < resources.len() && (#[trigger] g.placements@[i]) is Some && (
        #[trigger] g.placements@[j]) is Some && requirement_of(
            resources[i].desc,
            effective_format(g.builder, i),
        ).memory_type_index == requirement_of(
            resources[j].desc,
            effective_format(g.builder, j),
        ).memory_type_index && g.lifetimes@[i]->0.first <= g.lifetimes@[j]->0.last
            && g.lifetimes@[j]->0.first <= g.lifetimes@[i]->0.last ==> g.placements@[i]->0.offset
            + requirement_of(resources[i].desc, effective_format(g.builder, i)).size
            <= g.placements@[j]->0.offset || g.placements@[j]->0.offset + requirement_of(
            resources[j].desc,
            effective_format(g.builder, j),
        ).size <= g.placements@[i]->0.offset
    &&& forall|i: int|
        0 <= i < resources.len() && (#[trigger] g.placements@[i]) is Some ==> (
        g.placements@[i]->0.offset == 0 || exists|j: int|
            0 <= j < i && (#[trigger] g.placements@[j]) is Some && request_of(
                g,
                j,
            )->0.req.memory_type_index == request_of(g, i)->0.req.memory_type_index
                && crate::allocator::lifetimes_overlap(request_of(g, j)->0, request_of(g, i)->0)
                && g.placements@[j]->0.offset + request_of(g, j)->0.req.size
                <= g.placements@[i]->0.offset && g.placements@[i]->0.offset
                < g.placements@[j]->0.offset + request_of(g, j)->0.req.size
                + crate::allocator::align_of(request_of(g, i)->0))
    &&& g.transitions@ == all_transitions(nodes, g.order@, resources.len() as int)
}

impl RenderGraph {
    /// Wraps a built graph with its queue configuration and memory
    /// budgets; no schedule exists until the first update.
    pub fn new(
        builder: RenderGraphBuilder,
        schedule_info: RenderGraphCreateScheduleInfo,
        memory_info: RenderGraphCreateMemoryInfo,
    ) -> (g: RenderGraph)
        ensures
            g.builder == builder,
            g.schedule_info == schedule_info,
            g.heap_budget_mibs == memory_info.heap_budget_mibs,
            !g.valid,
    {
        RenderGraph {
            builder,
            schedule_info,
            heap_budget_mibs: memory_info.heap_budget_mibs,
            valid: false,
            order: Vec::new(),
            position: Vec::new(),
            queue_by_pos: Vec::new(),
            batch_layout: RenderGraphBatchLayout {
                num_cmd_batches: 0,
                num_fence_signals: 0,
                cmd_batches: Vec::new(),
                wait_fence_indices: Vec::new(),
            },
            cmd_to_batch: Vec::new(),
            lifetimes: Vec::new(),
            placements: Vec::new(),
            transitions: Vec::new(),
        }
    }

    /// The queue each node runs on, among the configured queues.
    fn node_queues(&self) -> (r: Vec<u32>)
        ensures
            r@.len() == self.builder.nodes@.len(),
            forall|i: int|
                0 <= i < r@.len() ==> (#[trigger] r@[i]) == queue_for(
                    self.builder.nodes@[i].flags,
                    effective_queues(self.schedule_info),
                ),
            forall|i: int|
                0 <= i < r@.len() ==> (#[trigger] r@[i]) < effective_queue_count(
                    self.schedule_info,
                ),
    {
        let n = self.builder.nodes.len();
        let qcount = if (self.schedule_info.num_queues as usize)
            <= self.schedule_info.queue_infos.len() {
            self.schedule_info.num_queues as usize
        } else {
            self.schedule_info.queue_infos.len()
        };
        let mut queues: Vec<u32> = Vec::new();
        while queues.len() < qcount
            invariant
                qcount <= self.schedule_info.queue_infos@.len(),
                qcount as int == effective_queues(self.schedule_info).len(),
                queues@.len() <= qcount,
                forall|i: int|
                    0 <= i < queues@.len() ==> (#[trigger] queues@[i])
                        == self.schedule_info.queue_infos@[i],
            decreases qcount - queues@.len(),
        {
            let next = queues.len();
            queues.push(self.schedule_info.queue_infos[next]);
        }
        proof {
            assert(queues@ =~= effective_queues(self.schedule_info));
        }
        let mut queue_class: Vec<u32> = Vec::new();
        let mut v: usize = 0;
        while v < n
            invariant
                n == self.builder.nodes@.len(),
                queues@ == effective_queues(self.schedule_info),
                queues@.len() <= 0xFFFF_FFFF,
                0 <= v <= n,
                queue_class@.len() == v,
                forall|i: int|
                    0 <= i < v ==> (#[trigger] queue_class@[i]) == queue_for(
                        self.builder.nodes@[i].flags,
                        effective_queues(self.schedule_info),
                    ),
                forall|i: int|
                    0 <= i < v ==> (#[trigger] queue_class@[i]) < effective_queue_count(
                        self.schedule_info,
                    ),
            decreases n - v,
        {
            queue_class.push(queue_index_for(self.builder.nodes[v].flags, &queues));
            v = v + 1;
        }
        queue_class
    }

    /// Resolves every resource's format; fails with `InvalidProgram`
    /// exactly when some image resource determines none.
    fn resolve_formats(&self) -> (r: Result<Vec<Format>, RpsError>)
        requires
            graph_wf(self.builder),
            self.builder.resources@.len() <= MAX_GRAPH_RESOURCES,
        ensures
            match r {
                Ok(fmts) => fmts@.len() == self.builder.resources@.len() && (forall|i: int|
                    0 <= i < fmts@.len() ==> (#[trigger] fmts@[i]) == effective_format(
                        self.builder,
                        i,
                    )) && formats_determinable(self.builder),
                Err(e) => e == RpsError::InvalidProgram && !formats_determinable(self.builder),
            },
    {
        let num_r = self.builder.resources.len();
        let mut fmts: Vec<Format> = Vec::new();
        let mut rid: usize = 0;
        while rid < num_r
            invariant
                graph_wf(self.builder),
                num_r == self.builder.resources@.len(),
                num_r <= MAX_GRAPH_RESOURCES,
                0 <= rid <= num_r,
                fmts@.len() == rid,
                forall|i: int|
                    0 <= i < rid ==> (#[trigger] fmts@[i]) == effective_format(self.builder, i),
                forall|i: int|
                    0 <= i < rid && (#[trigger] self.builder.resources@[i]).desc.buffer_image is Image
                        ==> effective_format(self.builder, i).0 != FMT_UNKNOWN,
            decreases num_r - rid,
        {
            let fmt = self.builder.resource_effective_format(rid as u32);
            let is_image = matches!(
                self.builder.resources[rid].desc.buffer_image,
                ResourceBufferImageDesc::Image(_)
            );
            if is_image && fmt.0 == FMT_UNKNOWN {
                return Err(RpsError::InvalidProgram);
            }
            fmts.push(fmt);
            rid = rid + 1;
        }
        Ok(fmts)
    }

    /// Runs one full update: analysis, scheduling, batch layout,
    /// allocation and transitions. The schedule flags of the update are
    /// merged with those configured at creation, and nodes are placed on
    /// the configured queues by capability.
    ///
    /// The pass is atomic: on any failure the graph, including any
    /// previously finalized schedule, is unchanged. It fails with
    /// `NotSupported` exactly when the graph exceeds the supported node or
    /// resource counts, with `InvalidProgram` exactly when some image
    /// resource's format cannot be determined, with `ValidationFailed`
    /// exactly when a resource needs memory but the budget list is empty,
    /// and otherwise only with `OutOfMemory`, when the allocator exhausts
    /// a budget; and it is guaranteed to succeed when the counts fit,
    /// formats resolve, at least one budget entry exists, and the
    /// worst-case demand of every memory type fits its budget.
    #[verifier::spinoff_prover]
    #[verifier::rlimit(100)]
    pub fn update(&mut self, info: &RenderGraphUpdateInfo) -> (r: Result<(), RpsError>)
        requires
            graph_wf(old(self).builder),
        ensures
            final(self).builder == old(self).builder,
            final(self).schedule_info == old(self).schedule_info,
            final(self).heap_budget_mibs == old(self).heap_budget_mibs,
            match r {
                Ok(_) => final(self).valid && render_graph_compiled(*final(self)) && (
                crate::schedule::program_order_selected(
                    info.schedule_flags | old(self).schedule_info.schedule_flags,
                )
                    ==> forall|d2: crate::analyze::DependencyGraph|
                    #[trigger] crate::analyze::dag_matches(final(self).builder.nodes@, d2)
                        ==> crate::schedule::is_program_order_schedule(d2, final(self).order@)) && (
                crate::schedule::random_order_selected(
                    info.schedule_flags | old(self).schedule_info.schedule_flags,
                )
                    ==> forall|d2: crate::analyze::DependencyGraph|
                    #[trigger] crate::analyze::dag_matches(final(self).builder.nodes@, d2)
                        ==> crate::schedule::is_seeded_random_schedule(
                        d2,
                        final(self).order@,
                        info.random_seed,
                    )),
                Err(e) => {
                    &&& *final(self) == *old(self)
                    &&& (e == RpsError::NotSupported <==> (old(self).builder.nodes@.len()
                        > MAX_SCHEDULE_NODES || old(self).builder.resources@.len()
                        > MAX_GRAPH_RESOURCES))
                    &&& (e == RpsError::InvalidProgram <==> (old(self).builder.nodes@.len()
                        <= MAX_SCHEDULE_NODES && old(self).builder.resources@.len()
                        <= MAX_GRAPH_RESOURCES && !formats_determinable(old(self).builder)))
                    &&& (e == RpsError::ValidationFailed <==> (old(self).builder.nodes@.len()
                        <= MAX_SCHEDULE_NODES && old(self).builder.resources@.len()
                        <= MAX_GRAPH_RESOURCES && formats_determinable(old(self).builder) && old(
                        self,
                    ).heap_budget_mibs@.len() == 0 && exists|i: int, p: int|
                        0 <= i < old(self).builder.resources@.len() && !(#[trigger] old(
                            self,
                        ).builder.resources@[i]).is_external && 0 <= p < old(
                            self,
                        ).builder.nodes@.len() && node_touches(
                            #[trigger] old(self).builder.nodes@[p],
                            i,
                        )))
                    &&& (e == RpsError::NotSupported || e == RpsError::InvalidProgram || e
                        == RpsError::ValidationFailed || e == RpsError::OutOfMemory)
                },
            },
            (old(self).builder.nodes@.len() <= MAX_SCHEDULE_NODES && old(
                self,
            ).builder.resources@.len() <= MAX_GRAPH_RESOURCES && formats_determinable(
                old(self).builder,
            ) && old(self).heap_budget_mibs@.len() >= 1 && (forall|mt: int|
                0 <= mt < old(self).heap_budget_mibs@.len() ==> demand_prefix(
                    full_requests(old(self).builder),
                    mt,
                    old(self).builder.resources@.len() as int,
                ) <= budget_bytes(#[trigger] old(self).heap_budget_mibs@[mt]))) ==> r is Ok,
    {
        let n = self.builder.nodes.len();
        let num_r = self.builder.resources.len();
        if n > MAX_SCHEDULE_NODES || num_r > MAX_GRAPH_RESOURCES {
            return Err(RpsError::NotSupported);
        }
        // resolve every resource's format; images must determine one
        let fmts = match self.resolve_formats() {
            Ok(f) => f,
            Err(e) => {
                return Err(e);
            },
        };
        // derive the hazard DAG and schedule the nodes
        let dag = build_dependencies(&self.builder);
        let queue_class = self.node_queues();
        let flags = info.schedule_flags | self.schedule_info.schedule_flags;
        let mem_score = self.memory_scores(&fmts, flags);
        let sched: ScheduleOutput = match schedule_nodes(
            &dag,
            flags,
            &queue_class,
            &mem_score,
            info.random_seed,
        ) {
            Ok(s) => s,
            Err(_) => {
                proof {
                    let cert = choose|c: Set<int>| crate::schedule::stuck_set(dag, c);
                    lemma_forward_edges_not_stuck(dag, cert);
                }
                return Err(RpsError::InvalidProgram);
            },
        };
        // group the scheduled order into per-queue batches
        let queue_by_pos = queues_by_position(&queue_class, &sched.order);
        proof {
            assert forall|p: int|
                0 <= p < queue_by_pos@.len() implies (#[trigger] queue_by_pos@[p]) == queue_for(
                self.builder.nodes@[sched.order@[p] as int].flags,
                effective_queues(self.schedule_info),
            ) && (queue_by_pos@[p] as int) < effective_queue_count(self.schedule_info) by {
                assert(queue_by_pos@[p] == queue_class@[sched.order@[p] as int]);
            }
        }
        let (layout, cmd_to_batch) = build_batches(&queue_by_pos);
        // access intervals under the scheduled positions
        let lifetimes = compute_lifetimes(&self.builder, &sched.position);
        // allocation requests of the touched transient resources
        let mut requests: Vec<Option<AllocRequest>> = Vec::new();
        let mut i: usize = 0;
        while i < num_r
            invariant
                num_r == self.builder.resources@.len(),
                fmts@.len() == num_r,
                lifetimes@.len() == num_r,
                forall|j: int|
                    0 <= j < num_r ==> (#[trigger] fmts@[j]) == effective_format(self.builder, j),
                0 <= i <= num_r,
                requests@.len() == i,
                forall|j: int|
                    0 <= j < i ==> (#[trigger] requests@[j]) == request_for(
                        self.builder.resources@[j],
                        lifetimes@[j],
                        fmts@[j],
                        n as int,
                    ),
                n == self.builder.nodes@.len(),
                forall|rid: int|
                    0 <= rid < num_r && (#[trigger] lifetimes@[rid]) is Some ==> n >= 1,
            decreases num_r - i,
        {
            let decl = &self.builder.resources[i];
            let req: Option<AllocRequest> = if !decl.is_external {
                match lifetimes[i] {
                    Some(l) => {
                        if decl.desc.flags & crate::resource::RESOURCE_FLAG_PERSISTENT != 0 {
                            Some(
                                AllocRequest {
                                    first: 0,
                                    last: (n - 1) as u32,
                                    req: resource_requirement(&decl.desc, fmts[i]),
                                },
                            )
                        } else {
                            Some(
                                AllocRequest {
                                    first: l.first,
                                    last: l.last,
                                    req: resource_requirement(&decl.desc, fmts[i]),
                                },
                            )
                        }
                    },
                    None => None,
                }
            } else {
                None
            };
            requests.push(req);
            i = i + 1;
        }
        let placements = match allocate_transients(&requests, &self.heap_budget_mibs) {
            Ok(pl) => pl,
            Err(e) => {
                proof {
                    if e == RpsError::ValidationFailed {
                        let bad = choose|j: int|
                            0 <= j < requests@.len() && !crate::allocator::request_type_valid(
                                #[trigger] requests@[j],
                                self.heap_budget_mibs@.len() as int,
                            );
                        assert(requests@[bad] == request_for(
                            self.builder.resources@[bad],
                            lifetimes@[bad],
                            fmts@[bad],
                            n as int,
                        ));
                        assert(requests@[bad] is Some && requests@[bad]->0.req.memory_type_index
                            == 0);
                        assert(self.heap_budget_mibs@.len() == 0);
                        assert(lifetimes@[bad] is Some);
                        assert(!self.builder.resources@[bad].is_external);
                        let pw = choose|p: int|
                            0 <= p < self.builder.nodes@.len() && #[trigger] node_touches(
                                self.builder.nodes@[p],
                                bad,
                            ) && sched.position@[p] == lifetimes@[bad]->0.first;
                        assert(0 <= bad < num_r && !self.builder.resources@[bad].is_external && 0
                            <= pw < n && node_touches(self.builder.nodes@[pw], bad));
                    }
                    if self.heap_budget_mibs@.len() == 0 {
                        assert forall|i2: int, p2: int|
                            0 <= i2 < num_r && !(#[trigger] self.builder.resources@[i2]).is_external
                                && 0 <= p2 < n && node_touches(
                                #[trigger] self.builder.nodes@[p2],
                                i2,
                            ) implies e == RpsError::ValidationFailed by {
                            assert(lifetimes@[i2] is Some);
                            assert(requests@[i2] == request_for(
                                self.builder.resources@[i2],
                                lifetimes@[i2],
                                fmts@[i2],
                                n as int,
                            ));
                            assert(requests@[i2] is Some);
                            assert(!crate::allocator::request_type_valid(
                                requests@[i2],
                                self.heap_budget_mibs@.len() as int,
                            ));
                        }
                    }
                    if self.heap_budget_mibs@.len() >= 1 {
                        assert forall|j: int|
                            0 <= j < requests@.len() && (#[trigger] requests@[j]) is Some implies
                        full_requests(self.builder)[j] is Some && full_requests(
                            self.builder,
                        )[j]->0.req == requests@[j]->0.req by {}
                        if e == RpsError::OutOfMemory {
                            let mt = choose|mt: int|
                                0 <= mt < self.heap_budget_mibs@.len() && demand_prefix(
                                    requests@,
                                    mt,
                                    requests@.len() as int,
                                ) > budget_bytes(#[trigger] self.heap_budget_mibs@[mt]);
                            lemma_demand_dominated(
                                requests@,
                                full_requests(self.builder),
                                mt,
                                num_r as int,
                            );
                        }
                    }
                }
                return Err(e);
            },
        };
        // state transitions of the finalized order
        let transitions = generate_transitions(&self.builder, &sched.order);
        let ScheduleOutput { order, position } = sched;
        self.order = order;
        self.position = position;
        self.queue_by_pos = queue_by_pos;
        self.batch_layout = layout;
        self.cmd_to_batch = cmd_to_batch;
        self.lifetimes = lifetimes;
        self.placements = placements;
        self.transitions = transitions;
        self.valid = true;
        proof {
            if crate::schedule::program_order_selected(flags) {
                assert forall|d2: crate::analyze::DependencyGraph|
                    #[trigger] crate::analyze::dag_matches(self.builder.nodes@, d2) implies
                crate::schedule::is_program_order_schedule(d2, self.order@) by {
                    crate::schedule::lemma_program_order_transfers(
                        self.builder.nodes@,
                        dag,
                        d2,
                        self.order@,
                    );
                }
            }
            if crate::schedule::random_order_selected(flags) {
                assert forall|d2: crate::analyze::DependencyGraph|
                    #[trigger] crate::analyze::dag_matches(self.builder.nodes@, d2) implies
                crate::schedule::is_seeded_random_schedule(
                    d2,
                    self.order@,
                    info.random_seed,
                ) by {
                    crate::schedule::lemma_seeded_random_transfers(
                        self.builder.nodes@,
                        dag,
                        d2,
                        self.order@,
                        info.random_seed,
                    );
                }
            }
            assert forall|i2: int|
                0 <= i2 < requests@.len() implies (#[trigger] requests@[i2]) == request_of(
                *self,
                i2,
            ) by {}
            lemma_placements_justified(*self, requests@);
            crate::schedule::lemma_batch_queues_bounded(
                self.queue_by_pos@,
                self.batch_layout,
                self.cmd_to_batch@,
                effective_queue_count(self.schedule_info),
            );
            assert forall|a: int, b: int|
                #[trigger] dep_edge(self.builder.nodes@, a, b) implies self.position@[a]
                < self.position@[b] by {
                assert(edge_in(dag.edges@, a, b));
                let k = choose|k: int|
                    0 <= k < dag.edges@.len() && (#[trigger] dag.edges@[k]).0 == a
                        && dag.edges@[k].1 == b;
                assert(self.position@[dag.edges@[k].0 as int] < self.position@[dag.edges@[k].1 as int]);
            }
        }
        Ok(())
    }

    /// The memory-saving score of each node: the bytes of transient
    /// resources whose program-order lifetime ends at it, or zeros when
    /// the memory-saving tie-break is off.
    fn memory_scores(&self, fmts: &Vec<Format>, flags: ScheduleFlags) -> (r: Vec<u64>)
        requires
            graph_wf(self.builder),
            fmts@.len() == self.builder.resources@.len(),
            self.builder.nodes@.len() <= MAX_SCHEDULE_NODES,
        ensures
            r@.len() == self.builder.nodes@.len(),
    {
        let n = self.builder.nodes.len();
        let mut score: Vec<u64> = Vec::new();
        while score.len() < n
            invariant
                score@.len() <= n,
            decreases n - score@.len(),
        {
            score.push(0);
        }
        if flags & SCHEDULE_PREFER_MEMORY_SAVING == 0 {
            return score;
        }
        let mut ident: Vec<usize> = Vec::new();
        while ident.len() < n
            invariant
                ident@.len() <= n,
                forall|p: int| 0 <= p < ident@.len() ==> (#[trigger] ident@[p]) == p,
            decreases n - ident@.len(),
        {
            let next = ident.len();
            ident.push(next);
        }
        let lifetimes = compute_lifetimes(&self.builder, &ident);
        let mut i: usize = 0;
        while i < lifetimes.len()
            invariant
                n == self.builder.nodes@.len(),
                fmts@.len() == self.builder.resources@.len(),
                lifetimes@.len() == self.builder.resources@.len(),
                score@.len() == n,
                forall|rid: int|
                    0 <= rid < lifetimes@.len() && (#[trigger] lifetimes@[rid]) is Some
                        ==> lifetimes@[rid]->0.last < n,
                0 <= i <= lifetimes@.len(),
            decreases lifetimes@.len() - i,
        {
            let decl = &self.builder.resources[i];
            if !decl.is_external {
                match lifetimes[i] {
                    Some(l) => {
                        let sz = resource_requirement(&decl.desc, fmts[i]).size;
                        let at = l.last as usize;
                        let prev = score[at];
                        let add = if sz > 0xFFFF_FFFF_FFFF_FFFF - prev {
                            0xFFFF_FFFF_FFFF_FFFF
                        } else {
                            prev + sz
                        };
                        score[at] = add;
                    },
                    None => {},
                }
            }
            i = i + 1;
        }
        score
    }
}

/// A finalized graph's order and positions are a valid schedule of any
/// DAG matching its nodes.
proof fn lemma_compiled_is_valid_schedule(g: RenderGraph, d: crate::analyze::DependencyGraph)
    requires
        render_graph_compiled(g),
        crate::analyze::dag_matches(g.builder.nodes@, d),
    ensures
        crate::schedule::edges_in_bounds(d),
        valid_schedule(d, ScheduleOutput { order: g.order, position: g.position }),
{
    let nodes = g.builder.nodes@;
    let s = ScheduleOutput { order: g.order, position: g.position };
    assert forall|k: int|
        0 <= k < d.edges@.len() implies s.position@[(#[trigger] d.edges@[k]).0 as int]
        < s.position@[d.edges@[k].1 as int] by {
        assert(dep_edge(nodes, d.edges@[k].0 as int, d.edges@[k].1 as int));
    }
}

/// Two finalized states of one graph with identical orders expose
/// identical per-position queues, batch boundaries and signal fences, the
/// same position-to-batch map, and the same transitions; both layouts
/// then match one queue sequence, so `lemma_batch_waits_agree` extends
/// the agreement to the wait lists.
proof fn lemma_equal_orders_equal_layouts(g1: RenderGraph, g2: RenderGraph)
    requires
        g1.builder.nodes@ == g2.builder.nodes@,
        g1.builder.resources@ == g2.builder.resources@,
        g1.schedule_info == g2.schedule_info,
        render_graph_compiled(g1),
        render_graph_compiled(g2),
        g1.order@ == g2.order@,
    ensures
        g1.queue_by_pos@ =~= g2.queue_by_pos@,
        g1.cmd_to_batch@ =~= g2.cmd_to_batch@,
        g1.batch_layout.cmd_batches@.len() == g2.batch_layout.cmd_batches@.len(),
        forall|b: int|
            0 <= b < g1.batch_layout.cmd_batches@.len() ==> ((
            #[trigger] g1.batch_layout.cmd_batches@[b]).queue_index,
            g1.batch_layout.cmd_batches@[b].cmd_begin, g1.batch_layout.cmd_batches@[b].num_cmds,
            g1.batch_layout.cmd_batches@[b].signal_fence_index) == ((
            #[trigger] g2.batch_layout.cmd_batches@[b]).queue_index,
            g2.batch_layout.cmd_batches@[b].cmd_begin, g2.batch_layout.cmd_batches@[b].num_cmds,
            g2.batch_layout.cmd_batches@[b].signal_fence_index),
        g1.queue_by_pos@ == g2.queue_by_pos@,
        batch_layout_matches(g1.queue_by_pos@, g2.batch_layout, g2.cmd_to_batch@),
        g1.transitions@ == g2.transitions@,
{
    let nodes = g1.builder.nodes@;
    assert forall|p: int|
        0 <= p < g1.queue_by_pos@.len() implies (#[trigger] g1.queue_by_pos@[p])
        == g2.queue_by_pos@[p] by {
        assert(g1.queue_by_pos@[p] == queue_for(
            nodes[g1.order@[p] as int].flags,
            effective_queues(g1.schedule_info),
        ));
        assert(g2.queue_by_pos@[p] == queue_for(
            nodes[g2.order@[p] as int].flags,
            effective_queues(g2.schedule_info),
        ));
    }
    assert(g1.queue_by_pos@ =~= g2.queue_by_pos@);
    assert(g1.queue_by_pos@ == g2.queue_by_pos@);
    crate::schedule::lemma_batch_layout_agreement(
        g1.queue_by_pos@,
        g1.batch_layout,
        g1.cmd_to_batch@,
        g2.batch_layout,
        g2.cmd_to_batch@,
    );
    crate::schedule::lemma_batch_map_agreement(
        g1.queue_by_pos@,
        g1.batch_layout,
        g1.cmd_to_batch@,
        g2.batch_layout,
        g2.cmd_to_batch@,
    );
    assert(g1.transitions@ == all_transitions(nodes, g1.order@, g1.builder.resources@.len() as int));
    assert(g2.transitions@ == all_transitions(nodes, g1.order@, g1.builder.resources@.len() as int));
}

/// Re-running an update on an unchanged graph under the program-order
/// tie-break reproduces the finalized state: both runs emit the same node
/// order and positions, the same per-position queues, batch boundaries
/// and signal fences, the same position-to-batch map, and the same
/// transitions.
pub proof fn lemma_program_order_update_deterministic(
    g1: RenderGraph,
    g2: RenderGraph,
    d: crate::analyze::DependencyGraph,
)
    requires
        g1.builder.nodes@ =~= g2.builder.nodes@,
        g1.builder.resources@ =~= g2.builder.resources@,
        g1.schedule_info == g2.schedule_info,
        render_graph_compiled(g1),
        render_graph_compiled(g2),
        crate::analyze::dag_matches(g1.builder.nodes@, d),
        crate::schedule::is_program_order_schedule(d, g1.order@),
        crate::schedule::is_program_order_schedule(d, g2.order@),
    ensures
        g1.order@ =~= g2.order@,
        g1.position@ =~= g2.position@,
        g1.queue_by_pos@ =~= g2.queue_by_pos@,
        g1.cmd_to_batch@ =~= g2.cmd_to_batch@,
        g1.batch_layout.cmd_batches@.len() == g2.batch_layout.cmd_batches@.len(),
        forall|b: int|
            0 <= b < g1.batch_layout.cmd_batches@.len() ==> ((
            #[trigger] g1.batch_layout.cmd_batches@[b]).queue_index,
            g1.batch_layout.cmd_batches@[b].cmd_begin, g1.batch_layout.cmd_batches@[b].num_cmds,
            g1.batch_layout.cmd_batches@[b].signal_fence_index) == ((
            #[trigger] g2.batch_layout.cmd_batches@[b]).queue_index,
            g2.batch_layout.cmd_batches@[b].cmd_begin, g2.batch_layout.cmd_batches@[b].num_cmds,
            g2.batch_layout.cmd_batches@[b].signal_fence_index),
        g1.queue_by_pos@ == g2.queue_by_pos@,
        batch_layout_matches(g1.queue_by_pos@, g2.batch_layout, g2.cmd_to_batch@),
        g1.transitions@ == g2.transitions@,
{
    assert(g1.builder.nodes@ == g2.builder.nodes@);
    assert(g1.builder.resources@ == g2.builder.resources@);
    let s1 = ScheduleOutput { order: g1.order, position: g1.position };
    let s2 = ScheduleOutput { order: g2.order, position: g2.position };
    lemma_compiled_is_valid_schedule(g1, d);
    lemma_compiled_is_valid_schedule(g2, d);
    crate::schedule::lemma_program_order_schedule_unique(d, s1, s2);
    assert(g1.order@ == g2.order@);
    assert(g1.position@ == g2.position@);
    lemma_equal_orders_equal_layouts(g1, g2);
}

/// Re-running an update on an unchanged graph under the random tie-break
/// with one seed reproduces the finalized state in the same way: the
/// seeded random schedule is deterministic.
pub proof fn lemma_seeded_random_update_deterministic(
    g1: RenderGraph,
    g2: RenderGraph,
    d: crate::analyze::DependencyGraph,
    seed: u64,
)
    requires
        g1.builder.nodes@ =~= g2.builder.nodes@,
        g1.builder.resources@ =~= g2.builder.resources@,
        g1.schedule_info == g2.schedule_info,
        render_graph_compiled(g1),
        render_graph_compiled(g2),
        crate::analyze::dag_matches(g1.builder.nodes@, d),
        crate::schedule::is_seeded_random_schedule(d, g1.order@, seed),
        crate::schedule::is_seeded_random_schedule(d, g2.order@, seed),
    ensures
        g1.order@ =~= g2.order@,
        g1.position@ =~= g2.position@,
        g1.queue_by_pos@ =~= g2.queue_by_pos@,
        g1.cmd_to_batch@ =~= g2.cmd_to_batch@,
        g1.batch_layout.cmd_batches@.len() == g2.batch_layout.cmd_batches@.len(),
        forall|b: int|
            0 <= b < g1.batch_layout.cmd_batches@.len() ==> ((
            #[trigger] g1.batch_layout.cmd_batches@[b]).queue_index,
            g1.batch_layout.cmd_batches@[b].cmd_begin, g1.batch_layout.cmd_batches@[b].num_cmds,
            g1.batch_layout.cmd_batches@[b].signal_fence_index) == ((
            #[trigger] g2.batch_layout.cmd_batches@[b]).queue_index,
            g2.batch_layout.cmd_batches@[b].cmd_begin, g2.batch_layout.cmd_batches@[b].num_cmds,
            g2.batch_layout.cmd_batches@[b].signal_fence_index),
        g1.queue_by_pos@ == g2.queue_by_pos@,
        batch_layout_matches(g1.queue_by_pos@, g2.batch_layout, g2.cmd_to_batch@),
        g1.transitions@ == g2.transitions@,
{
    assert(g1.builder.nodes@ == g2.builder.nodes@);
    assert(g1.builder.resources@ == g2.builder.resources@);
    let s1 = ScheduleOutput { order: g1.order, position: g1.position };
    let s2 = ScheduleOutput { order: g2.order, position: g2.position };
    lemma_compiled_is_valid_schedule(g1, d);
    lemma_compiled_is_valid_schedule(g2, d);
    crate::schedule::lemma_seeded_random_schedule_unique(d, s1, s2, seed);
    assert(g1.order@ == g2.order@);
    assert(g1.position@ == g2.position@);
    lemma_equal_orders_equal_layouts(g1, g2);
}

/// Per-resource record the compiler reports to the runtime backend.
#[derive(Clone, Copy, Debug, PartialEq, Eq, Structural)]
pub struct RuntimeResourceInfo {
    pub resource_desc: ResourceDesc,
    pub num_subresources: u32,
    pub full_range: crate::resource::SubresourceRange,
    pub heap_id: u32,
    pub alloc_info: GpuMemoryRequirement,
}

/// The full subresource range of a description: every mip level (capped
/// at the 16-bit range limit) and every layer; buffers have the trivial
/// range.
pub open spec fn full_range_of(desc: ResourceDesc) -> crate::resource::SubresourceRange {
    match desc.buffer_image {
        ResourceBufferImageDesc::Image(img) => crate::resource::SubresourceRange {
            base_mip_level: 0,
            mip_levels: if img.mip_levels > 0xFFFF {
                0xFFFF
            } else {
                img.mip_levels as u16
            },
            base_array_layer: 0,
            array_layers: img.depth_or_array_layers,
        },
        ResourceBufferImageDesc::Buffer(_) => crate::resource::full_buffer_range(),
    }
}

/// The subresource count of a description, saturated at the 32-bit limit.
pub open spec fn num_subresources_of(desc: ResourceDesc) -> u32 {
    match desc.buffer_image {
        ResourceBufferImageDesc::Image(img) => if img.mip_levels
            * img.depth_or_array_layers > 0xFFFF_FFFF {
            0xFFFF_FFFF
        } else {
            (img.mip_levels * img.depth_or_array_layers) as u32
        },
        ResourceBufferImageDesc::Buffer(_) => 1,
    }
}

/// Diagnostic record of one resource after an update.
#[derive(Clone, Copy, Debug, PartialEq, Eq, Structural)]
pub struct ResourceDiagnosticInfo {
    pub temporal_child_index: u32,
    pub is_external: bool,
    pub desc: ResourceDesc,
    pub lifetime_begin: u32,
    pub lifetime_end: u32,
    pub alloc_requirement: GpuMemoryRequirement,
    pub alloc_placement: HeapPlacement,
}

/// Whether a resource's lifetime spans the whole schedule rather than its
/// touch interval: caller-supplied resources and those flagged persistent.
pub open spec fn whole_schedule_lifetime(decl: ResourceDecl) -> bool {
    decl.is_external || decl.desc.flags & crate::resource::RESOURCE_FLAG_PERSISTENT != 0
}

/// The diagnostic record of one resource over a schedule of `n` commands:
/// its declaration, its lifetime — the access interval for a plain
/// transient resource, the whole schedule for a persistent or external
/// one, the invalid command index where no interval exists — its
/// requirement and its placement (or the invalid heap).
pub open spec fn resource_diag_of(
    decl: ResourceDecl,
    lifetime: Option<LifetimeInterval>,
    placement: Option<HeapPlacement>,
    fmt: Format,
    n: int,
) -> ResourceDiagnosticInfo {
    ResourceDiagnosticInfo {
        temporal_child_index: 0,
        is_external: decl.is_external,
        desc: decl.desc,
        lifetime_begin: if whole_schedule_lifetime(decl) {
            if n >= 1 {
                0
            } else {
                crate::barrier::CMD_ID_INVALID
            }
        } else if lifetime is Some {
            lifetime->0.first
        } else {
            crate::barrier::CMD_ID_INVALID
        },
        lifetime_end: if whole_schedule_lifetime(decl) {
            if n >= 1 {
                (n - 1) as u32
            } else {
                crate::barrier::CMD_ID_INVALID
            }
        } else if lifetime is Some {
            lifetime->0.last
        } else {
            crate::barrier::CMD_ID_INVALID
        },
        alloc_requirement: requirement_of(decl.desc, fmt),
        alloc_placement: if placement is Some {
            placement->0
        } else {
            HeapPlacement { heap_id: crate::resource::RESOURCE_ID_INVALID, offset: 0 }
        },
    }
}

/// The queryable diagnostics of a finalized graph: per-resource records,
/// the transition commands, and per-heap usage.
#[derive(Debug, PartialEq, Eq)]
pub struct RenderGraphDiagnosticInfo {
    pub num_resource_infos: u32,
    pub num_command_infos: u32,
    pub num_heap_infos: u32,
    pub resource_diag_infos: Vec<ResourceDiagnosticInfo>,
    pub cmd_diag_infos: Vec<CmdDiagnosticInfo>,
    pub heap_diag_infos: Vec<crate::allocator::HeapDiagnosticInfo>,
}

/// The bytes heap `mt` uses among the first `i` resources: the greatest
/// placement end among them.
pub open spec fn heap_used_upto(g: RenderGraph, mt: int, i: int) -> int
    decreases i,
{
    if i <= 0 {
        0
    } else {
        let prev = heap_used_upto(g, mt, i - 1);
        let end = g.placements@[i - 1]->0.offset + requirement_of(
            g.builder.resources@[i - 1].desc,
            effective_format(g.builder, i - 1),
        ).size;
        let this = if g.placements@[i - 1] is Some && g.placements@[i - 1]->0.heap_id == mt {
            if end > 0xFFFF_FFFF_FFFF_FFFF {
                0xFFFF_FFFF_FFFF_FFFF
            } else {
                end
            }
        } else {
            0
        };
        if this > prev {
            this
        } else {
            prev
        }
    }
}

impl RenderGraph {
    /// The finalized batch layout of the last successful update.
    pub fn get_batch_layout(&self) -> (r: &RenderGraphBatchLayout)
        ensures
            r == &self.batch_layout,
    {
        &self.batch_layout
    }

    /// Reports a resource's description, full range, requirement and heap
    /// placement; fails with `InvalidProgram` exactly when the identity is
    /// undeclared.
    pub fn get_resource_info(&self, resource_id: u32) -> (r: Result<RuntimeResourceInfo, RpsError>)
        requires
            graph_wf(self.builder),
        ensures
            match r {
                Ok(info) => (resource_id as int) < self.builder.resources@.len() && info
                    == (RuntimeResourceInfo {
                    resource_desc: self.builder.resources@[resource_id as int].desc,
                    num_subresources: num_subresources_of(
                        self.builder.resources@[resource_id as int].desc,
                    ),
                    full_range: full_range_of(self.builder.resources@[resource_id as int].desc),
                    heap_id: if (resource_id as int) < self.placements@.len()
                        && self.placements@[resource_id as int] is Some {
                        self.placements@[resource_id as int]->0.heap_id
                    } else {
                        crate::resource::RESOURCE_ID_INVALID
                    },
                    alloc_info: requirement_of(
                        self.builder.resources@[resource_id as int].desc,
                        effective_format(self.builder, resource_id as int),
                    ),
                }),
                Err(e) => e == RpsError::InvalidProgram && (resource_id as int)
                    >= self.builder.resources@.len(),
            },
    {
        if resource_id as usize >= self.builder.resources.len() {
            return Err(RpsError::InvalidProgram);
        }
        let decl = &self.builder.resources[resource_id as usize];
        let fmt = self.builder.resource_effective_format(resource_id);
        let (num_sub, full_range) = match decl.desc.buffer_image {
            ResourceBufferImageDesc::Image(img) => {
                proof {
                    assert((img.mip_levels as int) * (img.depth_or_array_layers as int)
                        < 0x1_0000_0000_0000_0000) by (nonlinear_arith)
                        requires
                            img.mip_levels < 0x1_0000_0000 && img.depth_or_array_layers
                                < 0x1_0000_0000,
                    ;
                }
                let prod: u64 = (img.mip_levels as u64) * (img.depth_or_array_layers as u64);
                let num = if prod > 0xFFFF_FFFF {
                    0xFFFF_FFFFu32
                } else {
                    prod as u32
                };
                let mips: u16 = if img.mip_levels > 0xFFFF {
                    0xFFFF
                } else {
                    img.mip_levels as u16
                };
                (
                    num,
                    crate::resource::SubresourceRange {
                        base_mip_level: 0,
                        mip_levels: mips,
                        base_array_layer: 0,
                        array_layers: img.depth_or_array_layers,
                    },
                )
            },
            ResourceBufferImageDesc::Buffer(_) => (
                1u32,
                crate::resource::SubresourceRange {
                    base_mip_level: 0,
                    mip_levels: 1,
                    base_array_layer: 0,
                    array_layers: 1,
                },
            ),
        };
        let heap_id = if (resource_id as usize) < self.placements.len() {
            match self.placements[resource_id as usize] {
                Some(pl) => pl.heap_id,
                None => crate::resource::RESOURCE_ID_INVALID,
            }
        } else {
            crate::resource::RESOURCE_ID_INVALID
        };
        Ok(
            RuntimeResourceInfo {
                resource_desc: decl.desc,
                num_subresources: num_sub,
                full_range,
                heap_id,
                alloc_info: resource_requirement(&decl.desc, fmt),
            },
        )
    }

    /// Builds the diagnostics of the finalized graph: one record per
    /// resource, the transition commands of the schedule, and one usage
    /// record per heap. Succeeds on every graph a completed update left
    /// behind; fails with `NotSupported` when no update has finalized the
    /// graph, or when the state was changed underneath it.
    pub fn get_diagnostics_info(&self) -> (r: Result<RenderGraphDiagnosticInfo, RpsError>)
        requires
            graph_wf(self.builder),
        ensures
            match r {
                Ok(d) => {
                    &&& self.valid
                    &&& d.resource_diag_infos@.len() == self.builder.resources@.len()
                    &&& forall|i: int|
                        0 <= i < self.builder.resources@.len() ==> (
                        #[trigger] d.resource_diag_infos@[i]) == resource_diag_of(
                            self.builder.resources@[i],
                            self.lifetimes@[i],
                            self.placements@[i],
                            effective_format(self.builder, i),
                            self.order@.len() as int,
                        )
                    &&& d.cmd_diag_infos@ == self.transitions@
                    &&& d.heap_diag_infos@.len() == self.heap_budget_mibs@.len()
                    &&& forall|mt: int|
                        0 <= mt < self.heap_budget_mibs@.len() ==> (
                        #[trigger] d.heap_diag_infos@[mt]).used_size == heap_used_upto(
                            *self,
                            mt,
                            self.builder.resources@.len() as int,
                        ) && d.heap_diag_infos@[mt].size == budget_bytes(
                            self.heap_budget_mibs@[mt],
                        ) && d.heap_diag_infos@[mt].memory_type_index == mt
                    &&& d.num_resource_infos == d.resource_diag_infos@.len()
                    &&& d.num_command_infos == d.cmd_diag_infos@.len()
                    &&& d.num_heap_infos == d.heap_diag_infos@.len()
                },
                Err(e) => e == RpsError::NotSupported,
            },
            !self.valid ==> r is Err,
            (self.valid && self.lifetimes@.len() == self.builder.resources@.len()
                && self.placements@.len() == self.builder.resources@.len()
                && self.builder.resources@.len() <= MAX_GRAPH_RESOURCES
                && self.heap_budget_mibs@.len() <= 0xFFFF_FFFE && self.transitions@.len()
                <= 0xFFFF_FFFE && self.order@.len() <= MAX_SCHEDULE_NODES) ==> r is Ok,
    {
        if !self.valid {
            return Err(RpsError::NotSupported);
        }
        if self.lifetimes.len() != self.builder.resources.len() || self.placements.len()
            != self.builder.resources.len() || self.builder.resources.len() > MAX_GRAPH_RESOURCES
            || self.heap_budget_mibs.len() > 0xFFFF_FFFE || self.transitions.len()
            > 0xFFFF_FFFE || self.order.len() > MAX_SCHEDULE_NODES {
            // a graph that was never finalized by `update` cannot be read
            return Err(RpsError::NotSupported);
        }
        let n = self.order.len();
        let num_r = self.builder.resources.len();
        let mut res_infos: Vec<ResourceDiagnosticInfo> = Vec::new();
        let mut i: usize = 0;
        while i < num_r
            invariant
                graph_wf(self.builder),
                num_r == self.builder.resources@.len(),
                num_r <= MAX_GRAPH_RESOURCES,
                self.lifetimes@.len() == num_r,
                self.placements@.len() == num_r,
                n == self.order@.len(),
                n <= MAX_SCHEDULE_NODES,
                0 <= i <= num_r,
                res_infos@.len() == i,
                forall|j: int|
                    0 <= j < i ==> (#[trigger] res_infos@[j]) == resource_diag_of(
                        self.builder.resources@[j],
                        self.lifetimes@[j],
                        self.placements@[j],
                        effective_format(self.builder, j),
                        n as int,
                    ),
            decreases num_r - i,
        {
            let decl = &self.builder.resources[i];
            let fmt = self.builder.resource_effective_format(i as u32);
            let spans_schedule = decl.is_external || decl.desc.flags
                & crate::resource::RESOURCE_FLAG_PERSISTENT != 0;
            let (lb, le) = if spans_schedule {
                if n >= 1 {
                    (0u32, (n - 1) as u32)
                } else {
                    (crate::barrier::CMD_ID_INVALID, crate::barrier::CMD_ID_INVALID)
                }
            } else {
                match self.lifetimes[i] {
                    Some(l) => (l.first, l.last),
                    None => (crate::barrier::CMD_ID_INVALID, crate::barrier::CMD_ID_INVALID),
                }
            };
            let pl = match self.placements[i] {
                Some(p) => p,
                None => HeapPlacement { heap_id: crate::resource::RESOURCE_ID_INVALID, offset: 0 },
            };
            res_infos.push(
                ResourceDiagnosticInfo {
                    temporal_child_index: 0,
                    is_external: decl.is_external,
                    desc: decl.desc,
                    lifetime_begin: lb,
                    lifetime_end: le,
                    alloc_requirement: resource_requirement(&decl.desc, fmt),
                    alloc_placement: pl,
                },
            );
            i = i + 1;
        }
        let mut cmd_infos: Vec<CmdDiagnosticInfo> = Vec::new();
        let mut c: usize = 0;
        while c < self.transitions.len()
            invariant
                0 <= c <= self.transitions@.len(),
                cmd_infos@.len() == c,
                forall|j: int| 0 <= j < c ==> (#[trigger] cmd_infos@[j]) == self.transitions@[j],
            decreases self.transitions@.len() - c,
        {
            cmd_infos.push(self.transitions[c]);
            c = c + 1;
        }
        proof {
            assert(cmd_infos@ =~= self.transitions@);
        }
        let mut heap_infos: Vec<crate::allocator::HeapDiagnosticInfo> = Vec::new();
        let mut mt: usize = 0;
        while mt < self.heap_budget_mibs.len()
            invariant
                graph_wf(self.builder),
                num_r == self.builder.resources@.len(),
                num_r <= MAX_GRAPH_RESOURCES,
                self.lifetimes@.len() == num_r,
                self.placements@.len() == num_r,
                self.heap_budget_mibs@.len() <= 0xFFFF_FFFE,
                0 <= mt <= self.heap_budget_mibs@.len(),
                heap_infos@.len() == mt,
                forall|j: int|
                    0 <= j < mt ==> (#[trigger] heap_infos@[j]).used_size == heap_used_upto(
                        *self,
                        j,
                        num_r as int,
                    ) && heap_infos@[j].size == budget_bytes(self.heap_budget_mibs@[j])
                        && heap_infos@[j].memory_type_index == j && heap_infos@[j].max_used_size
                        == heap_used_upto(*self, j, num_r as int),
            decreases self.heap_budget_mibs@.len() - mt,
        {
            let mut used: u64 = 0;
            let mut i2: usize = 0;
            while i2 < num_r
                invariant
                    graph_wf(self.builder),
                    num_r == self.builder.resources@.len(),
                    num_r <= MAX_GRAPH_RESOURCES,
                    self.placements@.len() == num_r,
                    mt < self.heap_budget_mibs@.len(),
                    0 <= i2 <= num_r,
                    used == heap_used_upto(*self, mt as int, i2 as int),
                decreases num_r - i2,
            {
                match self.placements[i2] {
                    Some(pl) => {
                        if pl.heap_id as usize == mt {
                            let decl = &self.builder.resources[i2];
                            let fmt = self.builder.resource_effective_format(i2 as u32);
                            let sz = resource_requirement(&decl.desc, fmt).size;
                            let end = if sz > 0xFFFF_FFFF_FFFF_FFFF - pl.offset {
                                0xFFFF_FFFF_FFFF_FFFFu64
                            } else {
                                pl.offset + sz
                            };
                            if end > used {
                                used = end;
                            }
                        }
                    },
                    None => {},
                }
                i2 = i2 + 1;
            }
            let budget: u64 = (self.heap_budget_mibs[mt] as u64) * 0x10_0000;
            heap_infos.push(
                crate::allocator::HeapDiagnosticInfo {
                    size: budget,
                    used_size: used,
                    max_used_size: used,
                    alignment: RESOURCE_DEFAULT_ALIGNMENT,
                    memory_type_index: mt as u32,
                },
            );
            mt = mt + 1;
        }
        let nr = res_infos.len() as u32;
        let nc = cmd_infos.len() as u32;
        let nh = heap_infos.len() as u32;
        Ok(
            RenderGraphDiagnosticInfo {
                num_resource_infos: nr,
                num_command_infos: nc,
                num_heap_infos: nh,
                resource_diag_infos: res_infos,
                cmd_diag_infos: cmd_infos,
                heap_diag_infos: heap_infos,
            },
        )
    }
}

} // verus!
