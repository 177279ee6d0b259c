use divvy::arena::raw::{SyncRawArena, UnsyncRawArena};
use divvy::{Allocator, Deallocator, FixedSlice, NonZeroLayout, Slice, SyncSlice};

#[test]
fn slice_hands_out_disjoint_aligned_blocks() {
    let mut s = Slice::new(0x1000, 256);
    let l = NonZeroLayout::new(16, 8).unwrap();
    let mut blocks: Vec<usize> = Vec::new();
    loop {
        match s.allocate(l) {
            Ok(a) => {
                assert_eq!(a % 8, 0);
                blocks.push(a);
            },
            Err(_) => break,
        }
    }
    assert_eq!(blocks.len(), 16);
    for i in 0..blocks.len() {
        for j in 0..blocks.len() {
            if i != j {
                let (a, b) = (blocks[i], blocks[j]);
                assert!(a + 16 <= b || b + 16 <= a);
            }
        }
    }
}

#[test]
fn three_sixteens_fill_a_sixty_four_byte_region_to_the_last_quarter() {
    // Three callers take sixteen bytes each; a fourth asking for thirty-two
    // fails, because only sixteen remain.
    let mut r = SyncSlice::new(0x4000, 64);
    let sixteen = NonZeroLayout::new(16, 8).unwrap();
    let a = r.allocate(sixteen).unwrap();
    let b = r.allocate(sixteen).unwrap();
    let c = r.allocate(sixteen).unwrap();
    assert_eq!(a, 0x4000);
    assert_eq!(b, 0x4010);
    assert_eq!(c, 0x4020);
    let thirty_two = NonZeroLayout::new(32, 8).unwrap();
    assert!(r.allocate(thirty_two).is_err());
    // The deterministic failure spent no capacity: the last sixteen are there.
    assert_eq!(r.allocate(sixteen).unwrap(), 0x4030);
}

#[test]
fn interleaved_callers_never_overlap() {
    // Two callers draw from one region in alternation, as two threads ordered
    // by the cursor's compare-and-swap would.
    let mut r = SyncSlice::new(0x8000, 128);
    let small = NonZeroLayout::new(8, 8).unwrap();
    let big = NonZeroLayout::new(24, 8).unwrap();
    let mut blocks: Vec<(usize, usize)> = Vec::new();
    for round in 0..4 {
        let a = r.allocate(small).unwrap();
        blocks.push((a, 8));
        let b = r.allocate(big).unwrap();
        blocks.push((b, 24));
        assert!(round < 4);
    }
    for i in 0..blocks.len() {
        for j in 0..blocks.len() {
            if i != j {
                let (a, sa) = blocks[i];
                let (b, sb) = blocks[j];
                assert!(a + sa <= b || b + sb <= a);
                assert!(a >= 0x8000 && a + sa <= 0x8000 + 128);
            }
        }
    }
}

#[test]
fn zeroed_allocation_places_blocks_the_same_way() {
    let mut s = Slice::new(0x1000, 64);
    let l = NonZeroLayout::new(16, 8).unwrap();
    assert_eq!(s.allocate_zeroed(l).unwrap(), 0x1000);
    assert_eq!(s.allocate(l).unwrap(), 0x1010);
    assert_eq!(s.allocate_zeroed(l).unwrap(), 0x1020);

    let mut r = SyncRawArena::new(0x2000, 32);
    assert_eq!(r.allocate_zeroed(l).unwrap(), 0x2000);
    assert_eq!(r.allocate_zeroed(l).unwrap(), 0x2010);
    assert!(r.allocate_zeroed(l).is_err());
}

#[test]
fn deallocate_is_a_no_op_for_bump_regions() {
    let mut s = Slice::new(0x1000, 64);
    let l = NonZeroLayout::new(16, 8).unwrap();
    let a = s.allocate(l).unwrap();
    s.deallocate(a, l);
    // The space is not reused: the next block comes after the first.
    let b = s.allocate(l).unwrap();
    assert_eq!(b, a + 16);
}

#[test]
fn raw_arena_clear_restarts_the_cursor() {
    let mut r = SyncRawArena::new(0x2000, 96);
    assert_eq!(r.data(), (0x2000, 96));
    let l = NonZeroLayout::new(32, 8).unwrap();
    let a = r.allocate(l).unwrap();
    assert_eq!(a, 0x2000);
    assert_eq!(r.allocate(l).unwrap(), 0x2020);
    r.clear();
    assert_eq!(r.allocate(l).unwrap(), 0x2000);

    let mut u = UnsyncRawArena::new(0x3000, 96);
    assert_eq!(u.data(), (0x3000, 96));
    let b = u.allocate(l).unwrap();
    assert_eq!(b, 0x3000);
    u.clear();
    assert_eq!(u.allocate(l).unwrap(), 0x3000);
}

#[test]
fn fixed_slice_reports_the_unallocated_remainder() {
    let mut f = FixedSlice::from_slice(0x5000, 100);
    assert_eq!(f.unallocated(), (0x5000, 100));
    let l = NonZeroLayout::new(24, 4).unwrap();
    let a = f.allocate(l).unwrap();
    assert_eq!(a, 0x5000);
    assert_eq!(f.unallocated(), (0x5018, 76));
    f.deallocate(a, l);
    assert_eq!(f.unallocated(), (0x5018, 76));
}

#[test]
fn alignment_padding_is_not_given_out_twice() {
    let mut s = Slice::new(0x1000, 64);
    let one = NonZeroLayout::new(1, 1).unwrap();
    let eight = NonZeroLayout::new(8, 8).unwrap();
    assert_eq!(s.allocate(one).unwrap(), 0x1000);
    // The cursor sits at 0x1001; the aligned block starts at 0x1008.
    assert_eq!(s.allocate(eight).unwrap(), 0x1008);
    assert_eq!(s.allocate(one).unwrap(), 0x1010);
}
