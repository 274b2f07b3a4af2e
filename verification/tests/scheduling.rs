use rps::analyze::DependencyGraph;
use rps::result::RpsError;
use rps::schedule::{
    build_batches, schedule_nodes, SCHEDULE_KEEP_PROGRAM_ORDER, SCHEDULE_MINIMIZE_COMPUTE_GFX_SWITCH,
    SCHEDULE_PREFER_MEMORY_SAVING, SCHEDULE_RANDOM_ORDER,
};

fn diamond() -> DependencyGraph {
    // 0 -> 1, 0 -> 2, 1 -> 3, 2 -> 3
    DependencyGraph { num_nodes: 4, edges: vec![(0, 1), (0, 2), (1, 3), (2, 3)] }
}

fn assert_topological(d: &DependencyGraph, position: &[usize]) {
    for &(a, b) in d.edges.iter() {
        assert!(position[a] < position[b], "edge ({a}, {b}) violated");
    }
}

#[test]
fn keep_program_order_schedules_diamond_in_identity_order() {
    let d = diamond();
    let classes = vec![0u32; 4];
    let scores = vec![0u64; 4];
    let s = schedule_nodes(&d, SCHEDULE_KEEP_PROGRAM_ORDER, &classes, &scores, 0).unwrap();
    assert_eq!(s.order, vec![0, 1, 2, 3]);
    assert_eq!(s.position, vec![0, 1, 2, 3]);
}

#[test]
fn every_tie_break_produces_a_topological_order() {
    let d = diamond();
    let classes = vec![0u32, 1, 0, 1];
    let scores = vec![5u64, 1, 9, 4];
    for flags in [
        SCHEDULE_KEEP_PROGRAM_ORDER,
        SCHEDULE_PREFER_MEMORY_SAVING,
        SCHEDULE_MINIMIZE_COMPUTE_GFX_SWITCH,
        SCHEDULE_RANDOM_ORDER,
        0,
    ] {
        let s = schedule_nodes(&d, flags, &classes, &scores, 7).unwrap();
        assert_topological(&d, &s.position);
    }
}

#[test]
fn random_order_is_reproducible_from_the_seed() {
    let d = diamond();
    let classes = vec![0u32; 4];
    let scores = vec![0u64; 4];
    let s1 = schedule_nodes(&d, SCHEDULE_RANDOM_ORDER, &classes, &scores, 42).unwrap();
    let s2 = schedule_nodes(&d, SCHEDULE_RANDOM_ORDER, &classes, &scores, 42).unwrap();
    assert_eq!(s1.order, s2.order);
    assert_eq!(s1.position, s2.position);
}

#[test]
fn cyclic_graph_is_rejected_with_invalid_program() {
    // two nodes depending on each other through overlapping writes
    let d = DependencyGraph { num_nodes: 2, edges: vec![(0, 1), (1, 0)] };
    let classes = vec![0u32; 2];
    let scores = vec![0u64; 2];
    let r = schedule_nodes(&d, SCHEDULE_KEEP_PROGRAM_ORDER, &classes, &scores, 0);
    assert!(matches!(r, Err(RpsError::InvalidProgram)));
}

#[test]
fn self_loop_is_rejected_with_invalid_program() {
    let d = DependencyGraph { num_nodes: 1, edges: vec![(0, 0)] };
    let r = schedule_nodes(&d, 0, &vec![0u32], &vec![0u64], 0);
    assert!(matches!(r, Err(RpsError::InvalidProgram)));
}

#[test]
fn batches_group_maximal_same_queue_runs() {
    // queues per position: 0 0 1 1 0
    let queue_by_pos = vec![0u32, 0, 1, 1, 0];
    let (layout, cmd_to_batch) = build_batches(&queue_by_pos);
    assert_eq!(layout.num_cmd_batches, 3);
    assert_eq!(layout.num_fence_signals, 3);
    assert_eq!(cmd_to_batch, vec![0, 0, 1, 1, 2]);
    let b = &layout.cmd_batches;
    assert_eq!((b[0].queue_index, b[0].cmd_begin, b[0].num_cmds), (0, 0, 2));
    assert_eq!((b[1].queue_index, b[1].cmd_begin, b[1].num_cmds), (1, 2, 2));
    assert_eq!((b[2].queue_index, b[2].cmd_begin, b[2].num_cmds), (0, 4, 1));
    for (i, batch) in b.iter().enumerate() {
        assert_eq!(batch.signal_fence_index as usize, i);
    }
    // batch 1 waits on fence 0, batch 2 waits on fence 1
    assert_eq!(b[0].num_wait_fences, 0);
    assert_eq!(b[1].num_wait_fences, 1);
    assert_eq!(layout.wait_fence_indices[b[1].wait_fences_begin as usize], 0);
    assert_eq!(b[2].num_wait_fences, 1);
    assert_eq!(layout.wait_fence_indices[b[2].wait_fences_begin as usize], 1);
}

#[test]
fn single_queue_gives_one_batch_without_waits() {
    let queue_by_pos = vec![0u32, 0, 0];
    let (layout, cmd_to_batch) = build_batches(&queue_by_pos);
    assert_eq!(layout.num_cmd_batches, 1);
    assert_eq!(cmd_to_batch, vec![0, 0, 0]);
    assert_eq!(layout.cmd_batches[0].num_wait_fences, 0);
    assert_eq!(layout.wait_fence_indices.len(), 0);
}
