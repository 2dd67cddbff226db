use bump_arena::arena::{AllocError, Arena};
use bump_arena::batch::run_batch;
use bump_arena::layout::Layout;
use bump_arena::readback::allocated_bytes;

#[test]
fn alloc_claims_top_of_arena() {
    let mut arena = Arena::new(16);
    assert_eq!(arena.remaining(), 16);
    assert_eq!(arena.capacity_units(), 16);
    let off = arena.allocate(Layout::new(4, 4)).unwrap();
    assert_eq!(off, 15);
    assert_eq!(arena.remaining(), 15);
}

#[test]
fn alloc_rounds_sizes_up_to_units() {
    let mut arena = Arena::new(64);
    // 5 bytes round up to 2 units
    let off = arena.allocate(Layout::new(5, 1)).unwrap();
    assert_eq!(off, 62);
    assert_eq!(arena.remaining(), 62);
    // 0 bytes round up to 0 units: the counter stays put
    let off = arena.allocate(Layout::new(0, 1)).unwrap();
    assert_eq!(off, 62);
    assert_eq!(arena.remaining(), 62);
}

#[test]
fn alloc_respects_alignment() {
    let mut arena = Arena::new(64);
    // 16-byte alignment is 4 units: 64 - 1 = 63, rounded down to 60
    let off = arena.allocate(Layout::new(4, 16)).unwrap();
    assert_eq!(off, 60);
    assert_eq!(off % 4, 0);
    assert_eq!(arena.remaining(), 60);
    // the three rounded-off units are donated to the claim, not reused
    let off = arena.allocate(Layout::new(4, 4)).unwrap();
    assert_eq!(off, 59);
}

#[test]
fn alloc_rejects_oversized_alignment() {
    let mut arena = Arena::new(16);
    let layout = Layout::new(4, 1u64 << 32);
    assert_eq!(arena.allocate(layout), Err(AllocError::UnsupportedAlignment));
    assert_eq!(arena.remaining(), 16);
}

#[test]
fn alloc_reports_exhaustion_and_preserves_counter() {
    let mut arena = Arena::new(4);
    // 5 units cannot fit a 4-unit arena
    assert_eq!(arena.allocate(Layout::new(20, 4)), Err(AllocError::OutOfMemory));
    assert_eq!(arena.remaining(), 4);
    // but 4 units can, exactly
    assert_eq!(arena.allocate(Layout::new(16, 4)), Ok(0));
    assert_eq!(arena.remaining(), 0);
    // and afterwards nothing else can
    assert_eq!(arena.allocate(Layout::new(4, 4)), Err(AllocError::OutOfMemory));
    assert_eq!(arena.remaining(), 0);
}

#[test]
fn counter_is_monotonic_across_mixed_calls() {
    let mut arena = Arena::new(128);
    let mut last = arena.remaining();
    let sizes: [u64; 7] = [4, 0, 513, 12, 1024, 3, 40];
    for size in sizes {
        let _ = arena.allocate(Layout::new(size, 8));
        let now = arena.remaining();
        assert!(now <= last);
        last = now;
    }
}

#[test]
fn dealloc_is_a_no_op() {
    let mut arena = Arena::new(8);
    let off = arena.allocate(Layout::new(8, 4)).unwrap();
    arena.dealloc(off, Layout::new(8, 4));
    assert_eq!(arena.remaining(), 6);
}

#[test]
fn successful_claims_never_overlap() {
    let mut arena = Arena::new(64);
    let requests = vec![
        Layout::new(12, 4),
        Layout::new(4, 16),
        Layout::new(200, 4),
        Layout::new(7, 8),
        Layout::new(32, 32),
        Layout::new(1, 4),
    ];
    let results = run_batch(&mut arena, &requests);
    assert_eq!(results.len(), requests.len());
    let mut claimed: Vec<(u32, u32)> = Vec::new();
    for (layout, result) in requests.iter().zip(results.iter()) {
        if let Ok(off) = *result {
            let units = layout.size_units() as u32;
            for &(start, len) in claimed.iter() {
                assert!(off + units <= start || start + len <= off);
            }
            claimed.push((off, units));
        }
    }
    assert!(claimed.len() >= 2);
}

#[test]
fn scenario_full_batch_of_unit_allocations() {
    // 8192 units (32768 bytes), 128 invocations, every fourth id allocates
    // one unit: 32 successes
    let mut arena = Arena::new(8192);
    let mut successes = 0;
    for id in 0u32..128 {
        if id % 4 == 0 {
            let result = arena.allocate(Layout::new(4, 4));
            assert!(result.is_ok());
            successes += 1;
        }
    }
    assert_eq!(successes, 32);
    assert_eq!(arena.remaining(), 8192 - 32);
    assert_eq!(allocated_bytes(8192, arena.remaining()), 128);
}

#[test]
fn scenario_contention_on_a_tiny_arena() {
    // 4 units, two invocations each requesting 3: exactly one wins,
    // whichever order the two linearize in
    let requests = vec![Layout::new(12, 4), Layout::new(12, 4)];
    let mut arena = Arena::new(4);
    let results = run_batch(&mut arena, &requests);
    assert_eq!(results[0], Ok(1));
    assert_eq!(results[1], Err(AllocError::OutOfMemory));
    assert_eq!(arena.remaining(), 1);

    // the same two requests in the other order: same outcome by symmetry
    let mut arena = Arena::new(4);
    let results = run_batch(&mut arena, &requests);
    assert_eq!(results.iter().filter(|r| r.is_ok()).count(), 1);
    assert_eq!(arena.remaining(), 1);
}
