use divvy::defaults::{default_realloc, grow, grow_zeroed, shrink};
use divvy::{
    Allocation, Allocator, AsStd, Deallocator, DefaultGrow, Leak, Never, NonZeroLayout, Once,
    Slice, Traced, WrapAsGlobal,
};
use divvy::traced::TraceOp;

#[test]
fn never_refuses_everything() {
    let mut n = Never;
    let l = NonZeroLayout::new(8, 8).unwrap();
    assert!(n.allocate(l).is_err());
    assert!(n.allocate_zeroed(l).is_err());
}

#[test]
fn leak_forwards_allocation_and_swallows_release() {
    let mut leak = Leak::new(Slice::new(0x1000, 64));
    let l = NonZeroLayout::new(16, 8).unwrap();
    let a = leak.allocate(l).unwrap();
    assert_eq!(a, 0x1000);
    leak.deallocate(a, l);
    // The block was not reclaimed.
    assert_eq!(leak.allocate(l).unwrap(), 0x1010);
    let inner = leak.into_inner();
    let mut inner = inner;
    assert_eq!(inner.allocate(l).unwrap(), 0x1020);
}

#[test]
fn once_permits_a_single_allocation() {
    let mut once = Once::new(Slice::new(0x1000, 64));
    let l = NonZeroLayout::new(16, 8).unwrap();
    let a = once.allocate(l).unwrap();
    assert_eq!(a, 0x1000);
    once.deallocate(a, l);
    let mut inner = once.into_inner();
    assert_eq!(inner.allocate(l).unwrap(), 0x1010);
}

#[test]
fn traced_records_every_call_in_order() {
    let mut t = Traced::new(Slice::new(0x1000, 64));
    let l = NonZeroLayout::new(16, 8).unwrap();
    let a = t.allocate(l).unwrap();
    t.deallocate(a, l);
    assert!(t.allocate(NonZeroLayout::new(128, 8).unwrap()).is_err());
    let log = t.log();
    assert_eq!(log.len(), 3);
    assert_eq!(log[0].op, TraceOp::Allocate);
    assert_eq!((log[0].addr, log[0].size, log[0].align), (0x1000, 16, 8));
    assert_eq!(log[1].op, TraceOp::Deallocate);
    assert_eq!((log[1].addr, log[1].size, log[1].align), (0x1000, 16, 8));
    // A failed allocation is recorded with the null address.
    assert_eq!((log[2].op, log[2].addr), (TraceOp::Allocate, 0));
}

#[test]
fn copy_reallocation_moves_the_block() {
    let mut s = Slice::new(0x1000, 256);
    let small = NonZeroLayout::new(16, 8).unwrap();
    let large = NonZeroLayout::new(32, 8).unwrap();
    let a = s.allocate(small).unwrap();
    let b = default_realloc(&mut s, a, small, large, false).unwrap();
    assert_ne!(a, b);
    assert_eq!(b, 0x1010);

    // grow falls back to the copy path on a bump region, whose in-place
    // attempt always refuses.
    let c = grow(&mut s, b, large, NonZeroLayout::new(64, 8).unwrap()).unwrap();
    assert_eq!(c, 0x1030);
    let d = grow_zeroed(&mut s, c, NonZeroLayout::new(64, 8).unwrap(), NonZeroLayout::new(
        80,
        8,
    ).unwrap()).unwrap();
    assert_eq!(d, 0x1070);
    let e = shrink(&mut s, d, NonZeroLayout::new(80, 8).unwrap(), small).unwrap();
    assert_eq!(e, 0x10c0);
}

#[test]
fn default_grow_reallocates_by_copy() {
    let mut g = DefaultGrow::new(Slice::new(0x1000, 256));
    let small = NonZeroLayout::new(16, 8).unwrap();
    let large = NonZeroLayout::new(32, 8).unwrap();
    let a = g.allocate(small).unwrap();
    let b = g.grow(a, small, large).unwrap();
    assert_ne!(a, b);
    let c = g.grow_zeroed(b, large, NonZeroLayout::new(48, 8).unwrap()).unwrap();
    assert_ne!(b, c);
    assert_eq!(g.get().region.data(), (0x1000, 256));
}

#[test]
fn as_std_bridges_the_zero_size_case() {
    let mut a = AsStd::new(Slice::new(0x1000, 256));
    // A zero-sized request never reaches the allocator: the placeholder is
    // the alignment itself, dangling but correctly aligned.
    assert_eq!(a.allocate(0, 16), Ok(16));
    assert_eq!(a.allocate_zeroed(0, 64), Ok(64));
    a.deallocate(16, 0, 16);

    let p = a.allocate(24, 8).unwrap();
    assert_eq!(p, 0x1000);
    let q = a.grow(p, 24, 48, 8).unwrap();
    assert_eq!(q, 0x1018);
    // Growing from a zero-sized placeholder is a fresh allocation.
    let r = a.grow(8, 0, 16, 8).unwrap();
    assert_eq!(r, 0x1048);
    // Shrinking to zero releases and hands back the placeholder.
    assert_eq!(a.shrink(r, 16, 0, 8), Ok(8));
    let s = a.grow_zeroed(q, 48, 64, 8).unwrap();
    assert_eq!(s, 0x1058);
    a.deallocate(s, 64, 8);
}

#[test]
fn wrap_as_global_translates_the_hook_vocabulary() {
    let mut w = WrapAsGlobal::new(Slice::new(0x1000, 256));
    assert_eq!(w.allocate(0, 8), 8);
    assert_eq!(w.allocate_zeroed(0, 32), 32);
    let a = w.allocate(16, 8);
    assert_eq!(a, 0x1000);
    let b = w.allocate_zeroed(16, 8);
    assert_eq!(b, 0x1010);
    w.deallocate(0, 16, 8);
    w.deallocate(a, 0, 8);
    w.deallocate(a, 16, 8);

    // realloc: same size is a no-op, zero-to-something allocates, growing
    // moves, shrinking to zero releases and hands back the placeholder.
    assert_eq!(w.realloc(a, 16, 8, 16), a);
    assert_eq!(w.realloc(0, 0, 8, 0), 0);
    let c = w.realloc(0, 0, 8, 24);
    assert_eq!(c, 0x1020);
    let d = w.realloc(c, 24, 8, 40);
    assert_eq!(d, 0x1038);
    let e = w.realloc(d, 40, 8, 8);
    assert_eq!(e, 0x1060);
    assert_eq!(w.realloc(e, 8, 8, 0), 8);
    // Failure reports the null address and leaves the old block valid.
    assert_eq!(w.realloc(b, 16, 8, 1 << 20), 0);

    assert_eq!(w.get_ref().region.data(), (0x1000, 256));
    assert_eq!(w.get().region.data(), (0x1000, 256));
    let _ = w.get_mut();
    let _inner = w.into_inner();
}

#[test]
fn an_allocation_releases_itself_with_its_own_descriptor() {
    let mut s = Slice::new(0x1000, 64);
    let l = NonZeroLayout::new(16, 8).unwrap();
    let addr = s.allocate(l).unwrap();
    let record = Allocation::new(addr, l, s);
    assert_eq!(record.addr, addr);
    assert_eq!(record.layout, l);
    let mut s = record.free();
    assert_eq!(s.allocate(l).unwrap(), 0x1010);
}
