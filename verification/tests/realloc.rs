use bump_arena::arena::{AllocError, Arena};
use bump_arena::layout::Layout;

fn write_unit(arena: &mut Arena, unit: u32, bytes: [u8; 4]) {
    for (k, b) in bytes.into_iter().enumerate() {
        arena.write_byte(unit as usize * 4 + k, b);
    }
}

fn read_unit(arena: &Arena, unit: u32) -> [u8; 4] {
    let mut out = [0u8; 4];
    for (k, slot) in out.iter_mut().enumerate() {
        *slot = arena.read_byte(unit as usize * 4 + k);
    }
    out
}

#[test]
fn scenario_grow_one_unit_to_two() {
    // a single invocation allocates 1 unit, then reallocs it to 2 units:
    // the new claim sits below the old one, the payload moves with it, and
    // the abandoned unit keeps its bytes
    let mut arena = Arena::new(8192);
    let old = arena.allocate(Layout::new(4, 4)).unwrap();
    assert_eq!(old, 8191);
    write_unit(&mut arena, old, [0xde, 0xad, 0xbe, 0xef]);

    let new = arena.realloc(old, Layout::new(4, 4), 8).unwrap();
    assert_eq!(new, 8189);
    // the old claim (1 unit) and the new claim (2 units) both stay spent
    assert_eq!(arena.remaining(), 8192 - 3);
    assert_eq!(read_unit(&arena, new), [0xde, 0xad, 0xbe, 0xef]);
    assert_eq!(read_unit(&arena, old), [0xde, 0xad, 0xbe, 0xef]);
}

#[test]
fn realloc_copies_min_of_old_and_new_sizes() {
    let mut arena = Arena::new(64);
    let old = arena.allocate(Layout::new(8, 4)).unwrap();
    write_unit(&mut arena, old, [1, 2, 3, 4]);
    write_unit(&mut arena, old + 1, [5, 6, 7, 8]);

    // shrink to one unit: only the first unit is copied
    let new = arena.realloc(old, Layout::new(8, 4), 4).unwrap();
    assert_eq!(new, 61);
    assert_eq!(read_unit(&arena, new), [1, 2, 3, 4]);
    // both abandoned units keep their bytes
    assert_eq!(read_unit(&arena, old), [1, 2, 3, 4]);
    assert_eq!(read_unit(&arena, old + 1), [5, 6, 7, 8]);
}

#[test]
fn realloc_failure_leaves_everything_in_place() {
    let mut arena = Arena::new(4);
    let old = arena.allocate(Layout::new(4, 4)).unwrap();
    assert_eq!(old, 3);
    write_unit(&mut arena, old, [9, 9, 9, 9]);

    // 10 units cannot fit in the 3 that are left
    assert_eq!(arena.realloc(old, Layout::new(4, 4), 40), Err(AllocError::OutOfMemory));
    assert_eq!(arena.remaining(), 3);
    assert_eq!(read_unit(&arena, old), [9, 9, 9, 9]);
}

#[test]
fn realloc_keeps_the_alignment_of_the_old_layout() {
    let mut arena = Arena::new(64);
    let old = arena.allocate(Layout::new(4, 16)).unwrap();
    assert_eq!(old, 60);
    let new = arena.realloc(old, Layout::new(4, 16), 8).unwrap();
    // 60 - 2 = 58, rounded down to the 16-byte (4-unit) boundary
    assert_eq!(new, 56);
    assert_eq!(new % 4, 0);
}
