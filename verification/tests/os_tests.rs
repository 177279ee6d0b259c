use divvy::os::linear::{Memory, LINEAR_PAGE_SIZE};
use divvy::os::unix::{supports_deallocation, Mmap, ResizeStep};
use divvy::os::Os;
use divvy::NonZeroLayout;

#[test]
fn page_size_must_be_a_power_of_two() {
    assert!(Mmap::new(4096).is_some());
    assert!(Mmap::new(4095).is_none());
    assert!(Mmap::new(0).is_none());
    assert!(Os::new(16384).is_some());
    assert!(Os::new(1000).is_none());
}

#[test]
fn sizes_round_up_to_whole_pages() {
    let m = Mmap::new(4096).unwrap();
    assert_eq!(m.page_size(), 4096);
    assert_eq!(m.pages_for(0).unwrap(), 0);
    assert_eq!(m.pages_for(1).unwrap(), 1);
    assert_eq!(m.pages_for(4096).unwrap(), 1);
    assert_eq!(m.pages_for(4097).unwrap(), 2);
    assert!(m.pages_for(usize::MAX).is_err());
}

#[test]
fn a_page_alignment_or_less_maps_exactly_the_covering_pages() {
    let m = Mmap::new(4096).unwrap();
    let l = NonZeroLayout::new(10000, 8).unwrap();
    let plan = m.alloc_plan(l).unwrap();
    assert_eq!(plan.pages, 3);
    assert!(!plan.oversized);
    // The fresh mapping is used as it is.
    let trim = m.finish_alloc(l, plan, 0x7f00_0000_0000);
    assert_eq!(trim.addr, 0x7f00_0000_0000);
    assert_eq!(trim.lead_pages, 0);
    assert_eq!(trim.keep_pages, 3);
    assert_eq!(trim.tail_pages, 0);
}

#[test]
fn twice_the_page_size_comes_back_aligned_and_trimmed() {
    // allocate(size = 4096, align = 2 pages) over-maps, drops the leading
    // pages up to the first aligned boundary, keeps exactly the pages the
    // size needs, and a release under the same descriptor unmaps just those.
    let m = Mmap::new(4096).unwrap();
    let l = NonZeroLayout::new(4096, 8192).unwrap();
    let plan = m.alloc_plan(l).unwrap();
    assert!(plan.oversized);
    assert_eq!(plan.pages, 3);
    // The kernel hands back a page-aligned but not 8192-aligned mapping.
    let trim = m.finish_alloc(l, plan, 4096);
    assert_eq!(trim.addr, 8192);
    assert_eq!(trim.addr % 8192, 0);
    assert_eq!(trim.lead_pages, 1);
    assert_eq!(trim.keep_pages, 1);
    assert_eq!(trim.tail_pages, 1);
    assert_eq!(m.dealloc_pages(l).unwrap(), trim.keep_pages);

    // A mapping that happens to be aligned already needs no lead.
    let trim = m.finish_alloc(l, plan, 16384);
    assert_eq!(trim.addr, 16384);
    assert_eq!(trim.addr % 8192, 0);
    assert_eq!(trim.lead_pages, 0);
    assert_eq!(trim.keep_pages, 1);
    assert_eq!(trim.tail_pages, 2);
}

#[test]
fn releases_unmap_the_pages_the_descriptor_implies() {
    let os = Os::new(4096).unwrap();
    assert!(supports_deallocation());
    let d = os.deallocator().unwrap();
    let l = NonZeroLayout::new(10000, 8).unwrap();
    assert_eq!(d.dealloc_pages(l).unwrap(), 3);
    let l = NonZeroLayout::new(1, 1).unwrap();
    assert_eq!(d.dealloc_pages(l).unwrap(), 1);
}

#[test]
fn resizing_keeps_extends_or_trims_the_mapping() {
    let m = Mmap::new(4096).unwrap();
    let a = NonZeroLayout::new(5000, 8).unwrap();
    let b = NonZeroLayout::new(8000, 8).unwrap();
    let c = NonZeroLayout::new(20000, 8).unwrap();
    assert_eq!(m.resize_plan(a, b).unwrap(), ResizeStep::Keep);
    assert_eq!(m.resize_plan(a, c).unwrap(), ResizeStep::MapMore(3));
    assert_eq!(m.resize_plan(c, a).unwrap(), ResizeStep::UnmapTrailing(3));
    // A size whose page rounding leaves the address space has no plan.
    let huge = NonZeroLayout::new(usize::MAX, 8).unwrap();
    assert!(m.resize_plan(a, huge).is_err());
    assert!(m.resize_plan(huge, a).is_err());
}

#[test]
fn linear_memory_only_grows_in_large_pages() {
    let mem = Memory { pages: 2 };
    assert_eq!(mem.page_size(), LINEAR_PAGE_SIZE);
    assert_eq!(mem.size(), Some(131072));
    assert!(!divvy::os::linear::supports_deallocation());

    let l = NonZeroLayout::new(100, 8).unwrap();
    assert_eq!(mem.grow_plan(l).unwrap(), 1);
    let l = NonZeroLayout::new(65537, 8).unwrap();
    assert_eq!(mem.grow_plan(l).unwrap(), 2);
    // An alignment beyond a linear page has no home here.
    let l = NonZeroLayout::new(16, 131072).unwrap();
    assert!(mem.grow_plan(l).is_err());
}
