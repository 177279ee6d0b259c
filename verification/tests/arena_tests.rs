use divvy::arena::{Footer, RawArena, DEFAULT_CHUNK_CAPACITY, FOOTER_SIZE};
use divvy::traced::{TraceOp, Traced};
use divvy::{Allocator, Arena, Never, NonZeroLayout, Slice};

#[test]
fn two_hundred_small_allocations_need_exactly_one_extra_chunk() {
    // 200 sequential eight-byte allocations are 1600 bytes of payload: the
    // default 1024-byte first chunk overflows once, and the second chunk is
    // twice as large.
    let mut arena = Arena::new(Slice::new(0x10_0000, 1 << 20));
    let l = NonZeroLayout::new(8, 8).unwrap();
    let mut blocks: Vec<usize> = Vec::new();
    for _ in 0..200 {
        let a = arena.allocate(l).unwrap();
        assert_eq!(a % 8, 0);
        blocks.push(a);
    }
    assert_eq!(arena.raw.chunks.len(), 2);
    assert_eq!(arena.raw.chunks[0].size(), DEFAULT_CHUNK_CAPACITY);
    assert!(arena.raw.chunks[1].size() >= 2048);
    for i in 0..blocks.len() {
        for j in 0..blocks.len() {
            if i != j {
                let (a, b) = (blocks[i], blocks[j]);
                assert!(a + 8 <= b || b + 8 <= a);
            }
        }
    }
}

#[test]
fn an_oversized_first_request_sizes_the_chunk_for_itself() {
    // allocate(2000, 8) on an empty arena creates a chunk of exactly
    // 2000 + footer overhead usable bytes, not the 1024-byte default.
    let mut arena = Arena::new(Slice::new(0x10_0000, 1 << 20));
    let l = NonZeroLayout::new(2000, 8).unwrap();
    let a = arena.allocate(l).unwrap();
    assert_eq!(a % 8, 0);
    assert_eq!(arena.raw.chunks.len(), 1);
    assert_eq!(arena.raw.chunks[0].size(), 2000 + FOOTER_SIZE);
    assert_eq!(arena.raw.chunks[0].layout.size(), 2000 + 2 * FOOTER_SIZE);
    assert_eq!(arena.raw.chunks[0].layout.align(), 8);
}

#[test]
fn chunk_capacities_at_least_double() {
    let mut arena = Arena::new(Slice::new(0x10_0000, 1 << 20));
    let sizes: [usize; 3] = [1000, 3000, 7000];
    for s in sizes {
        let l = NonZeroLayout::new(s, 8).unwrap();
        arena.allocate(l).unwrap();
    }
    assert_eq!(arena.raw.chunks.len(), 3);
    assert_eq!(arena.raw.chunks[0].size(), 1040);
    assert_eq!(arena.raw.chunks[1].size(), 3040);
    assert_eq!(arena.raw.chunks[2].size(), 7040);
    for i in 1..3 {
        assert!(arena.raw.chunks[i].size() >= 2 * arena.raw.chunks[i - 1].size());
    }
}

#[test]
fn teardown_releases_each_chunk_with_its_recorded_descriptor_newest_first() {
    // Three chunks, then teardown: exactly three deallocations against the
    // backing allocator, newest chunk first, each under the descriptor the
    // chunk was allocated with.
    let mut arena = Arena::new(Traced::new(Slice::new(0x10_0000, 1 << 20)));
    let sizes: [usize; 3] = [1000, 3000, 7000];
    for s in sizes {
        let l = NonZeroLayout::new(s, 8).unwrap();
        arena.allocate(l).unwrap();
    }
    let chunk_bases: Vec<usize> = arena.raw.chunks.iter().map(|f| f.base).collect();
    let chunk_layouts: Vec<(usize, usize)> = arena.raw.chunks.iter().map(
        |f| f.layout.get(),
    ).collect();
    arena.clear();
    assert_eq!(arena.raw.chunks.len(), 0);
    let log = arena.backing().log();
    let frees: Vec<_> = log.iter().filter(|r| r.op == TraceOp::Deallocate).collect();
    assert_eq!(frees.len(), 3);
    for k in 0..3 {
        // Newest first: the k-th release is chunk 2 - k.
        assert_eq!(frees[k].addr, chunk_bases[2 - k]);
        assert_eq!((frees[k].size, frees[k].align), chunk_layouts[2 - k]);
    }
    // Each release used the exact descriptor of the matching allocation.
    let allocs: Vec<_> = log.iter().filter(|r| r.op == TraceOp::Allocate).collect();
    assert_eq!(allocs.len(), 3);
    for f in &frees {
        assert!(allocs.iter().any(|a| a.addr == f.addr && a.size == f.size
            && a.align == f.align));
    }
}

#[test]
fn backing_failure_propagates_unchanged() {
    let mut arena = Arena::new(Never);
    let l = NonZeroLayout::new(8, 8).unwrap();
    assert!(arena.allocate(l).is_err());

    // A request too large for the address space fails cleanly too.
    let mut arena = Arena::new(Slice::new(0x1000, 1 << 20));
    let huge = NonZeroLayout::new(usize::MAX - 8, 8).unwrap();
    assert!(arena.allocate(huge).is_err());
}

#[test]
fn footer_cursor_strictly_increases_by_at_least_the_request() {
    let layout = NonZeroLayout::new(100 + FOOTER_SIZE, 8).unwrap();
    let mut f = Footer { layout, base: 0x2000, pos: 0x2000 };
    let l = NonZeroLayout::new(16, 8).unwrap();
    let mut prev = f.pos;
    while let Some(a) = f.allocate_in(l) {
        assert!(f.pos >= prev + 16);
        assert!(f.pos > prev);
        assert_eq!(a % 8, 0);
        prev = f.pos;
    }
    // Six sixteen-byte blocks fit in one hundred bytes.
    assert_eq!(f.pos, 0x2000 + 96);
    assert_eq!(f.size(), 100);
    assert_eq!(f.next_chunk_size(), Some(200));
}

#[test]
fn the_fast_path_needs_a_chunk() {
    let mut raw = RawArena::new();
    let l = NonZeroLayout::new(8, 8).unwrap();
    assert!(raw.allocate_in_current_chunk(l).is_none());
    let mut backing = Slice::new(0x10_0000, 1 << 20);
    let a = raw.allocate_slow(l, &mut backing).unwrap();
    assert_eq!(a % 8, 0);
    // Now the fast path takes over.
    let b = raw.allocate_in_current_chunk(l).unwrap();
    assert!(b >= a + 8);
}

#[test]
fn over_aligned_requests_fit_the_chunk_sized_for_them() {
    let mut arena = Arena::new(Slice::new(0x10_0000, 1 << 20));
    let l = NonZeroLayout::new(64, 1024).unwrap();
    let a = arena.allocate(l).unwrap();
    assert_eq!(a % 1024, 0);
    // The chunk allows for worst-case padding: size + (align - 8) + footer.
    assert_eq!(arena.raw.chunks[0].size(), 64 + 1024 - 8 + FOOTER_SIZE);
    let b = arena.allocate(l).unwrap();
    assert_eq!(b % 1024, 0);
    assert!(b >= a + 64);
}
