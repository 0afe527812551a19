use gcrecomp_core::heap::{ArenaAllocator, DEFAULT_HI, DEFAULT_LO};

#[test]
fn test_alloc_lo() {
    let mut arena = ArenaAllocator::new();
    let addr = arena.alloc_lo(256, 32);
    assert_eq!(addr, DEFAULT_LO);
    assert_eq!(arena.lo_cursor(), DEFAULT_LO + 256);
}

#[test]
fn test_alloc_hi() {
    let mut arena = ArenaAllocator::new();
    let addr = arena.alloc_hi(256, 32);
    let expected = (DEFAULT_HI - 256) & !31;
    assert_eq!(addr, expected);
}

#[test]
fn test_arena_overflow() {
    let mut arena = ArenaAllocator::new();
    arena.set_bounds(0x8040_0000, 0x8040_0100);
    let addr = arena.alloc_lo(512, 32);
    assert_eq!(addr, 0); // Should fail
}

#[test]
fn lo_allocations_are_aligned_and_ordered() {
    let mut arena = ArenaAllocator::new();
    let a = arena.alloc_lo(3, 16);
    let b = arena.alloc_lo(8, 16);
    assert_eq!(a % 16, 0);
    assert_eq!(b % 16, 0);
    assert!(b >= a + 3);
    assert!(arena.lo_cursor() <= arena.hi_cursor());
}

#[test]
fn reset_restores_bounds() {
    let mut arena = ArenaAllocator::new();
    arena.alloc_lo(64, 32);
    arena.alloc_hi(64, 32);
    arena.reset();
    assert_eq!(arena.lo_cursor(), DEFAULT_LO);
    assert_eq!(arena.hi_cursor(), DEFAULT_HI);
}

#[test]
fn reset_returns_to_the_last_bounds() {
    let mut arena = ArenaAllocator::new();
    arena.set_bounds(0x8040_0000, 0x8050_0000);
    arena.alloc_lo(100, 32);
    arena.alloc_hi(64, 32);
    arena.alloc_lo(8, 8);
    arena.reset();
    assert_eq!(arena.lo_cursor(), 0x8040_0000);
    assert_eq!(arena.hi_cursor(), 0x8050_0000);
}

#[test]
fn reset_undoes_cursor_moves_and_twice_is_once() {
    let mut arena = ArenaAllocator::new();
    arena.set_lo_cursor(0x8100_0000);
    arena.set_hi_cursor(0x8100_0040);
    arena.alloc_hi(16, 16);
    arena.reset();
    assert_eq!(arena.lo_cursor(), DEFAULT_LO);
    assert_eq!(arena.hi_cursor(), DEFAULT_HI);
    arena.set_bounds(0x8060_0000, 0x8070_0000);
    assert_eq!(arena.lo_cursor(), 0x8060_0000);
    assert_eq!(arena.hi_cursor(), 0x8070_0000);
    arena.set_lo_cursor(0x8065_0000);
    arena.alloc_lo(32, 32);
    arena.reset();
    arena.reset();
    assert_eq!(arena.lo_cursor(), 0x8060_0000);
    assert_eq!(arena.hi_cursor(), 0x8070_0000);
}
