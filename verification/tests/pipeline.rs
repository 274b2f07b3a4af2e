use rps::access::{
    AccessAttr, ACCESS_RENDER_TARGET, ACCESS_SHADER_RESOURCE, SHADER_STAGE_NONE, SHADER_STAGE_PS,
};
use rps::format::{Format, FMT_R8G8B8A8_UNORM, FMT_UNKNOWN};
use rps::graph::{
    RenderGraphBuilder, ResourceAccessInfo, NODE_DECL_COMPUTE, NODE_DECL_COPY, NODE_DECL_GRAPHICS,
};
use rps::render_graph::{
    RenderGraph, RenderGraphCreateMemoryInfo, RenderGraphCreateScheduleInfo,
    RenderGraphUpdateInfo,
};
use rps::schedule::{QUEUE_FLAG_COMPUTE, QUEUE_FLAG_COPY, QUEUE_FLAG_GRAPHICS};
use rps::resource::{
    ResourceBufferImageDesc, ResourceDesc, ResourceImageDesc, ResourceType, SubresourceRange,
    RESOURCE_FLAG_NONE,
};
use rps::access::{ACCESS_COPY_DEST, ACCESS_RELAXED_ORDER, ACCESS_UNORDERED_ACCESS};
use rps::resource::{ResourceBufferDesc, RESOURCE_FLAG_PERSISTENT};
use rps::result::RpsError;
use rps::schedule::{SCHEDULE_KEEP_PROGRAM_ORDER, SCHEDULE_RANDOM_ORDER};

fn image_2d(fmt: u32) -> ResourceDesc {
    ResourceDesc {
        type_: ResourceType::Image2D,
        temporal_layers: 1,
        flags: RESOURCE_FLAG_NONE,
        buffer_image: ResourceBufferImageDesc::Image(ResourceImageDesc {
            width: 64,
            height: 64,
            depth_or_array_layers: 1,
            mip_levels: 1,
            format: Format(fmt),
            sample_count: 1,
        }),
    }
}

fn full_range() -> SubresourceRange {
    SubresourceRange { base_mip_level: 0, mip_levels: 1, base_array_layer: 0, array_layers: 1 }
}

fn access(resource_id: u32, flags: u32, stages: u32) -> ResourceAccessInfo {
    ResourceAccessInfo {
        resource_id,
        range: full_range(),
        access: AccessAttr { access_flags: flags, access_stages: stages },
        view_format: Format(FMT_UNKNOWN),
    }
}

fn schedule_info() -> RenderGraphCreateScheduleInfo {
    RenderGraphCreateScheduleInfo {
        schedule_flags: 0,
        num_queues: 3,
        queue_infos: vec![QUEUE_FLAG_GRAPHICS, QUEUE_FLAG_COMPUTE, QUEUE_FLAG_COPY],
    }
}

fn update_info(schedule_flags: u32) -> RenderGraphUpdateInfo {
    RenderGraphUpdateInfo {
        frame_index: 0,
        gpu_completed_frame_index: u64::MAX,
        schedule_flags,
        diagnostic_flags: 0,
        random_seed: 0,
    }
}

#[test]
fn empty_graph_produces_an_empty_valid_layout() {
    let builder = RenderGraphBuilder::new();
    let mut graph = RenderGraph::new(
        builder,
        schedule_info(),
        RenderGraphCreateMemoryInfo { heap_budget_mibs: vec![16] },
    );
    graph.update(&update_info(SCHEDULE_KEEP_PROGRAM_ORDER)).unwrap();
    let layout = graph.get_batch_layout();
    assert_eq!(layout.num_cmd_batches, 0);
    assert_eq!(layout.num_fence_signals, 0);
    assert!(layout.cmd_batches.is_empty());
    assert!(layout.wait_fence_indices.is_empty());
    assert!(graph.transitions.is_empty());
}

#[test]
fn write_then_read_gives_one_transition_and_program_order() {
    // resource R written by node A as a render target, read by node B as a
    // shader resource, both on the graphics queue
    let mut builder = RenderGraphBuilder::new();
    let r = builder.declare_resource(image_2d(FMT_R8G8B8A8_UNORM)).unwrap();
    let a = builder
        .add_node(NODE_DECL_GRAPHICS, 0, vec![access(r, ACCESS_RENDER_TARGET, SHADER_STAGE_NONE)])
        .unwrap();
    let b = builder
        .add_node(NODE_DECL_GRAPHICS, 1, vec![access(r, ACCESS_SHADER_RESOURCE, SHADER_STAGE_PS)])
        .unwrap();
    let mut graph = RenderGraph::new(
        builder,
        schedule_info(),
        RenderGraphCreateMemoryInfo { heap_budget_mibs: vec![16] },
    );
    graph.update(&update_info(SCHEDULE_KEEP_PROGRAM_ORDER)).unwrap();

    // A executes strictly before B
    assert!(graph.position[a as usize] < graph.position[b as usize]);
    assert_eq!(graph.order, vec![0, 1]);

    // one batch on the graphics queue holding both commands
    let layout = graph.get_batch_layout();
    assert_eq!(layout.num_cmd_batches, 1);
    assert_eq!(layout.cmd_batches[0].queue_index, 0);
    assert_eq!(layout.cmd_batches[0].cmd_begin, 0);
    assert_eq!(layout.cmd_batches[0].num_cmds, 2);

    // exactly one transition, from render-target to shader-resource,
    // placed before the reading command
    assert_eq!(graph.transitions.len(), 1);
    let t = &graph.transitions[0];
    assert_eq!(t.cmd_index, 1);
    let tr = t.transition.unwrap();
    assert_eq!(tr.resource_index, r);
    assert_eq!(tr.prev_access.access_flags, ACCESS_RENDER_TARGET);
    assert_eq!(tr.next_access.access_flags, ACCESS_SHADER_RESOURCE);
    assert_eq!(tr.range, full_range());
}

#[test]
fn repeating_an_update_keeps_the_batch_layout_identical() {
    let mut builder = RenderGraphBuilder::new();
    let r0 = builder.declare_resource(image_2d(FMT_R8G8B8A8_UNORM)).unwrap();
    let r1 = builder.declare_resource(image_2d(FMT_R8G8B8A8_UNORM)).unwrap();
    builder
        .add_node(NODE_DECL_GRAPHICS, 0, vec![access(r0, ACCESS_RENDER_TARGET, SHADER_STAGE_NONE)])
        .unwrap();
    builder
        .add_node(NODE_DECL_COMPUTE, 1, vec![access(r1, ACCESS_RENDER_TARGET, SHADER_STAGE_NONE)])
        .unwrap();
    builder
        .add_node(
            NODE_DECL_GRAPHICS,
            2,
            vec![
                access(r0, ACCESS_SHADER_RESOURCE, SHADER_STAGE_PS),
                access(r1, ACCESS_SHADER_RESOURCE, SHADER_STAGE_PS),
            ],
        )
        .unwrap();
    let mut graph = RenderGraph::new(
        builder,
        schedule_info(),
        RenderGraphCreateMemoryInfo { heap_budget_mibs: vec![16] },
    );
    let info = update_info(SCHEDULE_KEEP_PROGRAM_ORDER);
    graph.update(&info).unwrap();
    let order1 = graph.order.clone();
    let position1 = graph.position.clone();
    let batches1 = graph.batch_layout.cmd_batches.clone();
    let waits1 = graph.batch_layout.wait_fence_indices.clone();
    graph.update(&info).unwrap();
    assert_eq!(graph.order, order1);
    assert_eq!(graph.position, position1);
    assert_eq!(graph.batch_layout.cmd_batches, batches1);
    assert_eq!(graph.batch_layout.wait_fence_indices, waits1);
}

#[test]
fn undeterminable_image_format_fails_atomically() {
    // first a healthy update, then an update after adding a format-less,
    // view-less image: the failure must leave the finalized state intact
    let mut builder = RenderGraphBuilder::new();
    let r = builder.declare_resource(image_2d(FMT_R8G8B8A8_UNORM)).unwrap();
    builder
        .add_node(NODE_DECL_GRAPHICS, 0, vec![access(r, ACCESS_RENDER_TARGET, SHADER_STAGE_NONE)])
        .unwrap();
    let mut graph = RenderGraph::new(
        builder,
        schedule_info(),
        RenderGraphCreateMemoryInfo { heap_budget_mibs: vec![16] },
    );
    graph.update(&update_info(SCHEDULE_KEEP_PROGRAM_ORDER)).unwrap();
    let order1 = graph.order.clone();

    graph.builder.declare_resource(image_2d(FMT_UNKNOWN)).unwrap();
    let r2 = graph.update(&update_info(SCHEDULE_KEEP_PROGRAM_ORDER));
    assert_eq!(r2, Err(RpsError::InvalidProgram));
    assert!(graph.valid);
    assert_eq!(graph.order, order1);
}

#[test]
fn graphics_and_compute_nodes_split_into_fenced_batches() {
    let mut builder = RenderGraphBuilder::new();
    let r = builder.declare_resource(image_2d(FMT_R8G8B8A8_UNORM)).unwrap();
    builder
        .add_node(NODE_DECL_GRAPHICS, 0, vec![access(r, ACCESS_RENDER_TARGET, SHADER_STAGE_NONE)])
        .unwrap();
    builder
        .add_node(NODE_DECL_COMPUTE, 1, vec![access(r, ACCESS_SHADER_RESOURCE, SHADER_STAGE_PS)])
        .unwrap();
    let mut graph = RenderGraph::new(
        builder,
        schedule_info(),
        RenderGraphCreateMemoryInfo { heap_budget_mibs: vec![16] },
    );
    graph.update(&update_info(SCHEDULE_KEEP_PROGRAM_ORDER)).unwrap();
    let layout = graph.get_batch_layout();
    assert_eq!(layout.num_cmd_batches, 2);
    assert_eq!(layout.cmd_batches[0].queue_index, 0);
    assert_eq!(layout.cmd_batches[1].queue_index, 1);
    // the compute batch waits on the fence the graphics batch signals
    assert_eq!(layout.cmd_batches[1].num_wait_fences, 1);
    let w = layout.wait_fence_indices[layout.cmd_batches[1].wait_fences_begin as usize];
    assert_eq!(w, layout.cmd_batches[0].signal_fence_index);
}

#[test]
fn update_places_live_transients_and_skips_external_resources() {
    let mut builder = RenderGraphBuilder::new();
    let rt = builder.declare_resource(image_2d(FMT_R8G8B8A8_UNORM)).unwrap();
    let ext = builder.declare_external_resource(image_2d(FMT_R8G8B8A8_UNORM)).unwrap();
    let unused = builder.declare_resource(image_2d(FMT_R8G8B8A8_UNORM)).unwrap();
    builder
        .add_node(
            NODE_DECL_GRAPHICS,
            0,
            vec![
                access(rt, ACCESS_RENDER_TARGET, SHADER_STAGE_NONE),
                access(ext, ACCESS_SHADER_RESOURCE, SHADER_STAGE_PS),
            ],
        )
        .unwrap();
    let mut graph = RenderGraph::new(
        builder,
        schedule_info(),
        RenderGraphCreateMemoryInfo { heap_budget_mibs: vec![16] },
    );
    graph.update(&update_info(SCHEDULE_KEEP_PROGRAM_ORDER)).unwrap();
    assert!(graph.placements[rt as usize].is_some());
    assert!(graph.placements[ext as usize].is_none());
    assert!(graph.placements[unused as usize].is_none());
}

#[test]
fn diagnostics_report_lifetimes_and_placements() {
    let mut builder = RenderGraphBuilder::new();
    let r = builder.declare_resource(image_2d(FMT_R8G8B8A8_UNORM)).unwrap();
    builder
        .add_node(NODE_DECL_GRAPHICS, 0, vec![access(r, ACCESS_RENDER_TARGET, SHADER_STAGE_NONE)])
        .unwrap();
    builder
        .add_node(NODE_DECL_GRAPHICS, 1, vec![access(r, ACCESS_SHADER_RESOURCE, SHADER_STAGE_PS)])
        .unwrap();
    let mut graph = RenderGraph::new(
        builder,
        schedule_info(),
        RenderGraphCreateMemoryInfo { heap_budget_mibs: vec![16] },
    );
    assert!(graph.get_diagnostics_info().is_err());
    graph.update(&update_info(SCHEDULE_KEEP_PROGRAM_ORDER)).unwrap();
    let diag = graph.get_diagnostics_info().unwrap();
    assert_eq!(diag.num_resource_infos, 1);
    assert_eq!(diag.num_command_infos, 1);
    assert_eq!(diag.num_heap_infos, 1);
    let ri = &diag.resource_diag_infos[0];
    assert!(!ri.is_external);
    assert_eq!(ri.lifetime_begin, 0);
    assert_eq!(ri.lifetime_end, 1);
    assert_eq!(ri.alloc_placement.heap_id, 0);
    // 64 x 64 texels at 4 bytes
    assert_eq!(ri.alloc_requirement.size, 64 * 64 * 4);
    let hi = &diag.heap_diag_infos[0];
    assert_eq!(hi.size, 16 * 1024 * 1024);
    assert_eq!(hi.used_size, 64 * 64 * 4);
}

#[test]
fn resource_info_reports_desc_and_heap() {
    let mut builder = RenderGraphBuilder::new();
    let r = builder.declare_resource(image_2d(FMT_R8G8B8A8_UNORM)).unwrap();
    builder
        .add_node(NODE_DECL_GRAPHICS, 0, vec![access(r, ACCESS_RENDER_TARGET, SHADER_STAGE_NONE)])
        .unwrap();
    let mut graph = RenderGraph::new(
        builder,
        schedule_info(),
        RenderGraphCreateMemoryInfo { heap_budget_mibs: vec![16] },
    );
    graph.update(&update_info(SCHEDULE_KEEP_PROGRAM_ORDER)).unwrap();
    let info = graph.get_resource_info(r).unwrap();
    assert_eq!(info.num_subresources, 1);
    assert_eq!(info.heap_id, 0);
    assert_eq!(info.alloc_info.size, 64 * 64 * 4);
    assert!(graph.get_resource_info(5).is_err());
}

#[test]
fn persistent_resources_never_alias_each_other() {
    let mut builder = RenderGraphBuilder::new();
    let mut desc = image_2d(FMT_R8G8B8A8_UNORM);
    desc.flags = RESOURCE_FLAG_PERSISTENT;
    let p0 = builder.declare_resource(desc).unwrap();
    let p1 = builder.declare_resource(desc).unwrap();
    // disjoint access intervals that a transient pair could alias
    builder
        .add_node(NODE_DECL_GRAPHICS, 0, vec![access(p0, ACCESS_RENDER_TARGET, SHADER_STAGE_NONE)])
        .unwrap();
    builder
        .add_node(NODE_DECL_GRAPHICS, 1, vec![access(p1, ACCESS_RENDER_TARGET, SHADER_STAGE_NONE)])
        .unwrap();
    let mut graph = RenderGraph::new(
        builder,
        schedule_info(),
        RenderGraphCreateMemoryInfo { heap_budget_mibs: vec![16] },
    );
    graph.update(&update_info(SCHEDULE_KEEP_PROGRAM_ORDER)).unwrap();
    let o0 = graph.placements[p0 as usize].unwrap().offset;
    let o1 = graph.placements[p1 as usize].unwrap().offset;
    assert_ne!(o0, o1);
}

#[test]
fn transient_resources_with_disjoint_lifetimes_alias_through_update() {
    let mut builder = RenderGraphBuilder::new();
    let r0 = builder.declare_resource(image_2d(FMT_R8G8B8A8_UNORM)).unwrap();
    let r1 = builder.declare_resource(image_2d(FMT_R8G8B8A8_UNORM)).unwrap();
    builder
        .add_node(NODE_DECL_GRAPHICS, 0, vec![access(r0, ACCESS_RENDER_TARGET, SHADER_STAGE_NONE)])
        .unwrap();
    builder
        .add_node(NODE_DECL_GRAPHICS, 1, vec![access(r1, ACCESS_RENDER_TARGET, SHADER_STAGE_NONE)])
        .unwrap();
    let mut graph = RenderGraph::new(
        builder,
        schedule_info(),
        RenderGraphCreateMemoryInfo { heap_budget_mibs: vec![16] },
    );
    graph.update(&update_info(SCHEDULE_KEEP_PROGRAM_ORDER)).unwrap();
    // r0's lifetime ends before r1's begins, so both reuse offset zero
    assert_eq!(graph.placements[r0 as usize].unwrap().offset, 0);
    assert_eq!(graph.placements[r1 as usize].unwrap().offset, 0);
}

#[test]
fn relaxed_order_writes_produce_no_edge() {
    let mut builder = RenderGraphBuilder::new();
    let r = builder.declare_resource(image_2d(FMT_R8G8B8A8_UNORM)).unwrap();
    let relaxed = ACCESS_UNORDERED_ACCESS | ACCESS_RELAXED_ORDER;
    builder
        .add_node(NODE_DECL_GRAPHICS, 0, vec![access(r, relaxed, SHADER_STAGE_PS)])
        .unwrap();
    builder
        .add_node(NODE_DECL_GRAPHICS, 1, vec![access(r, relaxed, SHADER_STAGE_PS)])
        .unwrap();
    let dag = rps::analyze::build_dependencies(&builder);
    assert!(dag.edges.is_empty());
}

#[test]
fn disjoint_mip_writes_keep_independent_states() {
    // mip 0 and mip 1 written by different nodes; a read of mip 0 must
    // transition from the mip 0 writer, not from the later mip 1 write
    let mut builder = RenderGraphBuilder::new();
    let mut desc = image_2d(FMT_R8G8B8A8_UNORM);
    if let ResourceBufferImageDesc::Image(ref mut img) = desc.buffer_image {
        img.mip_levels = 2;
    }
    let r = builder.declare_resource(desc).unwrap();
    let mip = |base: u16| SubresourceRange {
        base_mip_level: base,
        mip_levels: 1,
        base_array_layer: 0,
        array_layers: 1,
    };
    let mut w0 = access(r, ACCESS_RENDER_TARGET, SHADER_STAGE_NONE);
    w0.range = mip(0);
    let mut w1 = access(r, ACCESS_RENDER_TARGET, SHADER_STAGE_NONE);
    w1.range = mip(1);
    let mut rd = access(r, ACCESS_SHADER_RESOURCE, SHADER_STAGE_PS);
    rd.range = mip(0);
    builder.add_node(NODE_DECL_GRAPHICS, 0, vec![w0]).unwrap();
    builder.add_node(NODE_DECL_GRAPHICS, 1, vec![w1]).unwrap();
    builder.add_node(NODE_DECL_GRAPHICS, 2, vec![rd]).unwrap();

    let dag = rps::analyze::build_dependencies(&builder);
    assert_eq!(dag.edges, vec![(0, 2)]);

    let mut graph = RenderGraph::new(
        builder,
        schedule_info(),
        RenderGraphCreateMemoryInfo { heap_budget_mibs: vec![16] },
    );
    graph.update(&update_info(SCHEDULE_KEEP_PROGRAM_ORDER)).unwrap();
    assert_eq!(graph.transitions.len(), 1);
    let tr = graph.transitions[0].transition.unwrap();
    assert_eq!(tr.range, mip(0));
    assert_eq!(tr.prev_access.access_flags, ACCESS_RENDER_TARGET);
    assert_eq!(tr.next_access.access_flags, ACCESS_SHADER_RESOURCE);
}

#[test]
fn copy_nodes_run_on_the_copy_queue() {
    let mut builder = RenderGraphBuilder::new();
    let r = builder.declare_resource(image_2d(FMT_R8G8B8A8_UNORM)).unwrap();
    builder
        .add_node(NODE_DECL_COPY, 0, vec![access(r, ACCESS_COPY_DEST, 0)])
        .unwrap();
    let mut graph = RenderGraph::new(
        builder,
        schedule_info(),
        RenderGraphCreateMemoryInfo { heap_budget_mibs: vec![16] },
    );
    graph.update(&update_info(SCHEDULE_KEEP_PROGRAM_ORDER)).unwrap();
    assert_eq!(graph.get_batch_layout().cmd_batches[0].queue_index, 2);
}

#[test]
fn oversized_image_exhausts_the_budget() {
    let mut builder = RenderGraphBuilder::new();
    let mut desc = image_2d(FMT_R8G8B8A8_UNORM);
    if let ResourceBufferImageDesc::Image(ref mut img) = desc.buffer_image {
        img.width = u32::MAX;
        img.height = u32::MAX;
    }
    let r = builder.declare_resource(desc).unwrap();
    builder
        .add_node(NODE_DECL_GRAPHICS, 0, vec![access(r, ACCESS_RENDER_TARGET, SHADER_STAGE_NONE)])
        .unwrap();
    let mut graph = RenderGraph::new(
        builder,
        schedule_info(),
        RenderGraphCreateMemoryInfo { heap_budget_mibs: vec![16] },
    );
    assert_eq!(
        graph.update(&update_info(SCHEDULE_KEEP_PROGRAM_ORDER)),
        Err(RpsError::OutOfMemory)
    );
    assert!(!graph.valid);
}

#[test]
fn a_budget_that_fits_exactly_succeeds() {
    // one 1 MiB buffer in a 1 MiB heap
    let mut builder = RenderGraphBuilder::new();
    let desc = ResourceDesc {
        type_: ResourceType::Buffer,
        temporal_layers: 1,
        flags: RESOURCE_FLAG_NONE,
        buffer_image: ResourceBufferImageDesc::Buffer(ResourceBufferDesc {
            size_in_bytes_lo: 1024 * 1024,
            size_in_bytes_hi: 0,
        }),
    };
    let r = builder.declare_resource(desc).unwrap();
    let mut a = access(r, ACCESS_COPY_DEST, 0);
    a.range = SubresourceRange {
        base_mip_level: 0,
        mip_levels: 1,
        base_array_layer: 0,
        array_layers: 1,
    };
    builder.add_node(NODE_DECL_COPY, 0, vec![a]).unwrap();
    let mut graph = RenderGraph::new(
        builder,
        schedule_info(),
        RenderGraphCreateMemoryInfo { heap_budget_mibs: vec![1] },
    );
    graph.update(&update_info(SCHEDULE_KEEP_PROGRAM_ORDER)).unwrap();
    assert_eq!(graph.placements[r as usize].unwrap().offset, 0);
}

#[test]
fn batches_stay_within_the_configured_queue_count() {
    // one configured queue: compute and copy work fall back to it
    let mut builder = RenderGraphBuilder::new();
    let r = builder.declare_resource(image_2d(FMT_R8G8B8A8_UNORM)).unwrap();
    builder
        .add_node(NODE_DECL_GRAPHICS, 0, vec![access(r, ACCESS_RENDER_TARGET, SHADER_STAGE_NONE)])
        .unwrap();
    builder
        .add_node(NODE_DECL_COMPUTE, 1, vec![access(r, ACCESS_SHADER_RESOURCE, SHADER_STAGE_PS)])
        .unwrap();
    let single_queue = RenderGraphCreateScheduleInfo {
        schedule_flags: 0,
        num_queues: 1,
        queue_infos: vec![QUEUE_FLAG_GRAPHICS | QUEUE_FLAG_COMPUTE | QUEUE_FLAG_COPY],
    };
    let mut graph = RenderGraph::new(
        builder,
        single_queue,
        RenderGraphCreateMemoryInfo { heap_budget_mibs: vec![16] },
    );
    graph.update(&update_info(SCHEDULE_KEEP_PROGRAM_ORDER)).unwrap();
    let layout = graph.get_batch_layout();
    assert_eq!(layout.num_cmd_batches, 1);
    for b in layout.cmd_batches.iter() {
        assert!(b.queue_index < 1);
    }
}

#[test]
fn a_random_seed_reproduces_the_whole_layout() {
    let mut make = || {
        let mut builder = RenderGraphBuilder::new();
        let r0 = builder.declare_resource(image_2d(FMT_R8G8B8A8_UNORM)).unwrap();
        let r1 = builder.declare_resource(image_2d(FMT_R8G8B8A8_UNORM)).unwrap();
        builder
            .add_node(
                NODE_DECL_GRAPHICS,
                0,
                vec![access(r0, ACCESS_RENDER_TARGET, SHADER_STAGE_NONE)],
            )
            .unwrap();
        builder
            .add_node(NODE_DECL_COMPUTE, 1, vec![access(r1, ACCESS_RENDER_TARGET, SHADER_STAGE_NONE)])
            .unwrap();
        builder
            .add_node(
                NODE_DECL_GRAPHICS,
                2,
                vec![
                    access(r0, ACCESS_SHADER_RESOURCE, SHADER_STAGE_PS),
                    access(r1, ACCESS_SHADER_RESOURCE, SHADER_STAGE_PS),
                ],
            )
            .unwrap();
        RenderGraph::new(
            builder,
            schedule_info(),
            RenderGraphCreateMemoryInfo { heap_budget_mibs: vec![16] },
        )
    };
    let mut info = update_info(SCHEDULE_RANDOM_ORDER);
    info.random_seed = 0xDEC0_DE15;
    let mut g1 = make();
    let mut g2 = make();
    g1.update(&info).unwrap();
    g2.update(&info).unwrap();
    assert_eq!(g1.order, g2.order);
    assert_eq!(g1.position, g2.position);
    assert_eq!(g1.batch_layout.cmd_batches, g2.batch_layout.cmd_batches);
    assert_eq!(g1.batch_layout.wait_fence_indices, g2.batch_layout.wait_fence_indices);
    assert_eq!(g1.transitions, g2.transitions);
}

#[test]
fn diagnostics_span_the_schedule_for_persistent_and_external_resources() {
    let mut builder = RenderGraphBuilder::new();
    let mut pdesc = image_2d(FMT_R8G8B8A8_UNORM);
    pdesc.flags = RESOURCE_FLAG_PERSISTENT;
    let persistent = builder.declare_resource(pdesc).unwrap();
    let external = builder.declare_external_resource(image_2d(FMT_R8G8B8A8_UNORM)).unwrap();
    let transient = builder.declare_resource(image_2d(FMT_R8G8B8A8_UNORM)).unwrap();
    builder
        .add_node(
            NODE_DECL_GRAPHICS,
            0,
            vec![
                access(transient, ACCESS_RENDER_TARGET, SHADER_STAGE_NONE),
                access(external, ACCESS_SHADER_RESOURCE, SHADER_STAGE_PS),
            ],
        )
        .unwrap();
    // the persistent resource is first touched by the second node
    builder
        .add_node(
            NODE_DECL_GRAPHICS,
            1,
            vec![access(persistent, ACCESS_RENDER_TARGET, SHADER_STAGE_NONE)],
        )
        .unwrap();
    let mut graph = RenderGraph::new(
        builder,
        schedule_info(),
        RenderGraphCreateMemoryInfo { heap_budget_mibs: vec![16] },
    );
    graph.update(&update_info(SCHEDULE_KEEP_PROGRAM_ORDER)).unwrap();
    let diag = graph.get_diagnostics_info().unwrap();
    let p = &diag.resource_diag_infos[persistent as usize];
    assert_eq!((p.lifetime_begin, p.lifetime_end), (0, 1));
    let e = &diag.resource_diag_infos[external as usize];
    assert!(e.is_external);
    assert_eq!((e.lifetime_begin, e.lifetime_end), (0, 1));
    let t = &diag.resource_diag_infos[transient as usize];
    assert_eq!((t.lifetime_begin, t.lifetime_end), (0, 0));
}
