use std::alloc::Layout;

use substrate::arena::{Arena, ArenaError};

#[test]
fn new_arena_has_correct_capacity_and_zero_offset() {
    let arena = Arena::new(1024);
    assert_eq!(arena.capacity(), 1024);
    assert_eq!(arena.used(), 0);
}

#[test]
fn alloc_layout_returns_ptr_to_advanced_offset_when_enough_capacity() {
    let mut arena = Arena::new(1024);
    let layout = Layout::from_size_align(8, 8).expect("Should be valid layout.");
    let result = arena.alloc_layout(layout.size(), layout.align());
    let _ptr = result.unwrap();
    assert_eq!(arena.used(), 8);
}

#[test]
fn alloc_layout_returns_err_outofmemory_when_new_offset_exceeds_capacity() {
    let mut arena = Arena::new(8);
    let layout = Layout::from_size_align(9, 8).expect("Should be valid layout.");
    let result = arena.alloc_layout(layout.size(), layout.align());
    assert!(result.is_err());
    assert_eq!(arena.used(), 0);
}

#[test]
fn reset_sets_offset_to_zero() {
    let mut arena = Arena::new(16);
    let layout = Layout::from_size_align(9, 8).expect("Should be valid layout.");
    _ = arena.alloc_layout(layout.size(), layout.align());
    arena.reset();
    assert_eq!(arena.used(), 0);
}

#[test]
fn alloc_u64_writes_u64_value() {
    let mut arena = Arena::new(64);
    let slot = arena.alloc_value::<u64>(42).expect("Should be enough room");
    assert_eq!(arena.read::<u64>(slot), Some(42));
}

#[test]
fn new_arena_of_zero_bytes() {
    let mut arena = Arena::new(0);
    assert_eq!(arena.capacity(), 0);
    assert_eq!(arena.used(), 0);
    assert_eq!(arena.alloc_layout(0, 1), Ok(0));
    assert_eq!(arena.alloc_layout(1, 1), Err(ArenaError::OutOfMemory));
    assert_eq!(arena.used(), 0);
}

#[test]
fn alloc_pads_to_alignment() {
    let mut arena = Arena::new(64);
    assert_eq!(arena.alloc_layout(1, 1), Ok(0));
    assert_eq!(arena.used(), 1);
    assert_eq!(arena.alloc_layout(4, 8), Ok(8));
    assert_eq!(arena.used(), 12);
    assert_eq!(arena.alloc_layout(2, 4), Ok(12));
    assert_eq!(arena.used(), 14);
    assert_eq!(arena.alloc_layout(1, 16), Ok(16));
    assert_eq!(arena.used(), 17);
}

#[test]
fn zero_sized_alloc_still_pads() {
    let mut arena = Arena::new(32);
    assert_eq!(arena.alloc_layout(3, 1), Ok(0));
    assert_eq!(arena.alloc_layout(0, 8), Ok(8));
    assert_eq!(arena.used(), 8);
}

#[test]
fn alloc_fills_arena_exactly() {
    let mut arena = Arena::new(16);
    assert_eq!(arena.alloc_layout(16, 8), Ok(0));
    assert_eq!(arena.used(), 16);
    assert_eq!(arena.alloc_layout(0, 1), Ok(16));
    assert_eq!(arena.alloc_layout(1, 1), Err(ArenaError::OutOfMemory));
    assert_eq!(arena.used(), 16);
}

#[test]
fn padding_alone_can_exhaust_the_arena() {
    let mut arena = Arena::new(9);
    assert_eq!(arena.alloc_layout(1, 1), Ok(0));
    assert_eq!(arena.alloc_layout(2, 8), Err(ArenaError::OutOfMemory));
    assert_eq!(arena.used(), 1);
    assert_eq!(arena.alloc_layout(2, 1), Ok(1));
    assert_eq!(arena.used(), 3);
}

#[test]
fn request_larger_than_capacity_fails_even_when_empty() {
    let mut arena = Arena::new(1024);
    assert_eq!(arena.alloc_layout(1025, 1), Err(ArenaError::OutOfMemory));
    assert_eq!(arena.used(), 0);
    assert_eq!(arena.alloc_layout(usize::MAX, 1), Err(ArenaError::OutOfMemory));
    assert_eq!(arena.used(), 0);
}

#[test]
fn huge_alignment_fails_without_overflow() {
    let mut arena = Arena::new(64);
    assert_eq!(arena.alloc_layout(1, 1), Ok(0));
    assert_eq!(arena.alloc_layout(0, 1usize << (usize::BITS - 1)), Err(ArenaError::OutOfMemory));
    assert_eq!(arena.used(), 1);
}

#[test]
fn reset_then_same_requests_give_same_offsets() {
    let requests = [(3usize, 1usize), (8, 8), (5, 4), (1, 2), (16, 16)];
    let mut arena = Arena::new(64);
    let first: Vec<Result<usize, ArenaError>> =
        requests.iter().map(|&(s, a)| arena.alloc_layout(s, a)).collect();
    let used_first = arena.used();
    arena.reset();
    assert_eq!(arena.used(), 0);
    let second: Vec<Result<usize, ArenaError>> =
        requests.iter().map(|&(s, a)| arena.alloc_layout(s, a)).collect();
    assert_eq!(first, vec![Ok(0), Ok(8), Ok(16), Ok(22), Ok(32)]);
    assert_eq!(first, second);
    assert_eq!(arena.used(), used_first);
    assert_eq!(used_first, 48);
}

#[test]
fn used_is_monotone_and_bounded() {
    let requests = [(7usize, 1usize), (9, 8), (40, 4), (1, 1), (3, 2), (100, 1), (2, 2)];
    let mut arena = Arena::new(64);
    let mut last = arena.used();
    for &(s, a) in requests.iter() {
        let _ = arena.alloc_layout(s, a);
        assert!(arena.used() >= last);
        assert!(arena.used() <= arena.capacity());
        last = arena.used();
    }
}

#[test]
fn two_arenas_of_equal_capacity_agree() {
    let requests = [(5usize, 4usize), (1, 1), (12, 8), (30, 2), (2, 16)];
    let mut a = Arena::new(48);
    let mut b = Arena::new(48);
    for &(s, al) in requests.iter() {
        assert_eq!(a.alloc_layout(s, al), b.alloc_layout(s, al));
    }
    assert_eq!(a.used(), b.used());
    assert_eq!(a.used(), 34);
}

#[test]
fn typed_values_read_back() {
    let mut arena = Arena::new(64);
    let a = arena.alloc_value::<u8>(0xab).unwrap();
    let b = arena.alloc_value::<u16>(0xbeef).unwrap();
    let c = arena.alloc_value::<u32>(0xdead_beef).unwrap();
    let d = arena.alloc_value::<u64>(0x0123_4567_89ab_cdef).unwrap();
    assert_eq!(a, 0);
    assert_eq!(b % std::mem::align_of::<u16>(), 0);
    assert_eq!(c % std::mem::align_of::<u32>(), 0);
    assert_eq!(d % std::mem::align_of::<u64>(), 0);
    assert_eq!(arena.used(), d + 8);
    assert_eq!(arena.read::<u8>(a), Some(0xab));
    assert_eq!(arena.read::<u16>(b), Some(0xbeef));
    assert_eq!(arena.read::<u32>(c), Some(0xdead_beef));
    assert_eq!(arena.read::<u64>(d), Some(0x0123_4567_89ab_cdef));
}

#[test]
fn typed_alloc_out_of_memory_leaves_arena_unchanged() {
    let mut arena = Arena::new(4);
    assert_eq!(arena.alloc_value::<u64>(7), Err(ArenaError::OutOfMemory));
    assert_eq!(arena.used(), 0);
    assert_eq!(arena.alloc_value::<u32>(7), Ok(0));
    assert_eq!(arena.used(), 4);
}

#[test]
fn read_past_the_end_is_none() {
    let arena = Arena::new(8);
    assert_eq!(arena.read::<u64>(0), Some(0));
    assert_eq!(arena.read::<u64>(1), None);
    assert_eq!(arena.read::<u8>(8), None);
    assert_eq!(arena.read::<u16>(usize::MAX), None);
}

#[test]
fn reset_keeps_the_bytes() {
    let mut arena = Arena::new(16);
    let slot = arena.alloc_value::<u32>(0x1122_3344).unwrap();
    arena.reset();
    assert_eq!(arena.used(), 0);
    assert_eq!(arena.read::<u32>(slot), Some(0x1122_3344));
}
