use rps::allocator::{allocate_transients, AllocRequest, GpuMemoryRequirement};
use rps::result::RpsError;

fn request(first: u32, last: u32, size: u64, memory_type_index: u32) -> Option<AllocRequest> {
    Some(AllocRequest {
        first,
        last,
        req: GpuMemoryRequirement { size, alignment: 256, memory_type_index },
    })
}

#[test]
fn disjoint_lifetimes_alias_the_same_offset() {
    // R1 lives over [0, 2], R2 over [3, 5]; the budget holds one at a time
    let requests = vec![request(0, 2, 512 * 1024, 0), request(3, 5, 512 * 1024, 0)];
    let placements = allocate_transients(&requests, &vec![1]).unwrap();
    let p0 = placements[0].unwrap();
    let p1 = placements[1].unwrap();
    assert_eq!(p0.heap_id, 0);
    assert_eq!(p1.heap_id, 0);
    assert_eq!(p0.offset, 0);
    assert_eq!(p1.offset, 0);
}

#[test]
fn overlapping_lifetimes_get_disjoint_ranges() {
    let requests = vec![request(0, 3, 1000, 0), request(2, 5, 1000, 0)];
    let placements = allocate_transients(&requests, &vec![1]).unwrap();
    let p0 = placements[0].unwrap();
    let p1 = placements[1].unwrap();
    assert_eq!(p0.offset, 0);
    // the second resource packs just past the first, aligned up to 256
    assert_eq!(p1.offset, 1024);
    assert!(p0.offset + 1000 <= p1.offset || p1.offset + 1000 <= p0.offset);
}

#[test]
fn alignment_is_respected() {
    let requests = vec![request(0, 1, 100, 0), request(0, 1, 100, 0), request(1, 2, 100, 0)];
    let placements = allocate_transients(&requests, &vec![1]).unwrap();
    for p in placements.iter() {
        assert_eq!(p.unwrap().offset % 256, 0);
    }
}

#[test]
fn budget_exhaustion_is_out_of_memory() {
    // two live-at-once resources of 700 KiB in a 1 MiB heap
    let requests = vec![request(0, 5, 700 * 1024, 0), request(0, 5, 700 * 1024, 0)];
    assert_eq!(allocate_transients(&requests, &vec![1]), Err(RpsError::OutOfMemory));
}

#[test]
fn oversized_single_request_is_out_of_memory() {
    let requests = vec![request(0, 0, 2 * 1024 * 1024, 0)];
    assert_eq!(allocate_transients(&requests, &vec![1]), Err(RpsError::OutOfMemory));
}

#[test]
fn unknown_memory_type_is_validation_failed() {
    let requests = vec![request(0, 0, 64, 3)];
    assert_eq!(allocate_transients(&requests, &vec![1, 1]), Err(RpsError::ValidationFailed));
}

#[test]
fn unrequested_slots_stay_unplaced() {
    let requests = vec![None, request(0, 0, 64, 0), None];
    let placements = allocate_transients(&requests, &vec![1]).unwrap();
    assert!(placements[0].is_none());
    assert!(placements[1].is_some());
    assert!(placements[2].is_none());
}

#[test]
fn memory_types_are_packed_independently() {
    let requests = vec![request(0, 5, 1000, 0), request(0, 5, 1000, 1)];
    let placements = allocate_transients(&requests, &vec![1, 1]).unwrap();
    // same lifetimes, but different heaps, so both may sit at offset zero
    assert_eq!(placements[0].unwrap().offset, 0);
    assert_eq!(placements[1].unwrap().offset, 0);
    assert_eq!(placements[0].unwrap().heap_id, 0);
    assert_eq!(placements[1].unwrap().heap_id, 1);
}

#[test]
fn zero_alignment_is_treated_as_one_byte() {
    let requests = vec![Some(AllocRequest {
        first: 0,
        last: 0,
        req: GpuMemoryRequirement { size: 10, alignment: 0, memory_type_index: 0 },
    })];
    let placements = allocate_transients(&requests, &vec![1]).unwrap();
    assert_eq!(placements[0].unwrap().offset, 0);
}
