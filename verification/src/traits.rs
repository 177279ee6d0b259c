//! The capability traits: allocation and deallocation as separately
//! implementable interface fragments.
//!
//! Every allocator is modelled by the map of its *live* blocks: the address of
//! each allocation it has issued and not yet reclaimed, with the descriptor it
//! was issued under. The contracts state the capability obligation once, for
//! every implementation: a returned block is aligned, in bounds, disjoint from
//! every other live block of the same allocator, and can be released only with
//! the exact descriptor it was allocated with.

use vstd::prelude::*;
use crate::layout::{AllocError, NonZeroLayout};

verus! {

/// The descriptor a live block was issued under.
pub struct BlockInfo {
    pub size: int,
    pub align: int,
}

/// True when the two byte ranges `[a1, a1 + s1)` and `[a2, a2 + s2)` share no
/// address.
pub open spec fn ranges_disjoint(a1: int, s1: int, a2: int, s2: int) -> bool {
    a1 + s1 <= a2 || a2 + s2 <= a1
}

/// True when `[addr, addr + size)` overlaps no block of `live`.
pub open spec fn fresh_in(live: Map<int, BlockInfo>, addr: int, size: int) -> bool {
    forall|a: int| live.dom().contains(a) ==> ranges_disjoint(a, live[a].size, addr, size)
}

/// True when no two blocks of `live` overlap.
pub open spec fn live_pairwise_disjoint(live: Map<int, BlockInfo>) -> bool {
    forall|a1: int, a2: int|
        live.dom().contains(a1) && live.dom().contains(a2) && a1 != a2 ==> ranges_disjoint(
            a1,
            live[a1].size,
            a2,
            live[a2].size,
        )
}

/// True when `live` records a block at `addr` of exactly this size and
/// alignment.
pub open spec fn is_live_raw(
    live: Map<int, BlockInfo>,
    addr: usize,
    size: usize,
    align: usize,
) -> bool {
    &&& live.dom().contains(addr as int)
    &&& live[addr as int].size == size as int
    &&& live[addr as int].align == align as int
}

/// True when `live` records a block at `addr` allocated with exactly `layout`.
pub open spec fn is_live(live: Map<int, BlockInfo>, addr: usize, layout: NonZeroLayout) -> bool {
    is_live_raw(live, addr, layout.spec_size(), layout.spec_align())
}

/// The live map after the block at `addr` is released by an allocator that
/// does or does not reclaim.
pub open spec fn after_free(
    live: Map<int, BlockInfo>,
    addr: usize,
    reclaims: bool,
) -> Map<int, BlockInfo> {
    if reclaims {
        live.remove(addr as int)
    } else {
        live
    }
}

/// The live map after the block at `addr` is resized in place.
pub open spec fn after_resize_raw(
    live: Map<int, BlockInfo>,
    addr: usize,
    size: usize,
    align: usize,
) -> Map<int, BlockInfo> {
    live.remove(addr as int).insert(addr as int, BlockInfo { size: size as int, align: align as int })
}

/// The live map after the block at `addr` is resized in place to `layout`.
pub open spec fn after_resize(
    live: Map<int, BlockInfo>,
    addr: usize,
    layout: NonZeroLayout,
) -> Map<int, BlockInfo> {
    after_resize_raw(live, addr, layout.spec_size(), layout.spec_align())
}

/// The live map after the block at `addr` was reallocated and came back at
/// `r_addr`: resized in place if the address is unchanged, otherwise allocated
/// anew and released at the old address.
pub open spec fn after_realloc_raw(
    live: Map<int, BlockInfo>,
    addr: usize,
    r_addr: usize,
    size: usize,
    align: usize,
    reclaims: bool,
) -> Map<int, BlockInfo> {
    if r_addr == addr {
        after_resize_raw(live, addr, size, align)
    } else {
        after_free(after_alloc_raw(live, r_addr, size, align), addr, reclaims)
    }
}

/// The live map after the block at `addr` was reallocated under `layout` and
/// came back at `r_addr`.
pub open spec fn after_realloc(
    live: Map<int, BlockInfo>,
    addr: usize,
    r_addr: usize,
    layout: NonZeroLayout,
    reclaims: bool,
) -> Map<int, BlockInfo> {
    after_realloc_raw(live, addr, r_addr, layout.spec_size(), layout.spec_align(), reclaims)
}

/// The live map after a block of this size and alignment is issued at `addr`.
pub open spec fn after_alloc_raw(
    live: Map<int, BlockInfo>,
    addr: usize,
    size: usize,
    align: usize,
) -> Map<int, BlockInfo> {
    live.insert(addr as int, BlockInfo { size: size as int, align: align as int })
}

/// The live map after a block is issued at `addr` under `layout`.
pub open spec fn after_alloc(
    live: Map<int, BlockInfo>,
    addr: usize,
    layout: NonZeroLayout,
) -> Map<int, BlockInfo> {
    after_alloc_raw(live, addr, layout.spec_size(), layout.spec_align())
}

/// What every successful allocation promises: a nonzero, aligned address whose
/// block lies within the address space and overlaps no live block.
pub open spec fn good_block(
    live: Map<int, BlockInfo>,
    addr: usize,
    layout: NonZeroLayout,
) -> bool {
    &&& addr > 0
    &&& addr as int % layout.spec_align() as int == 0
    &&& addr + layout.spec_size() <= usize::MAX
    &&& fresh_in(live, addr as int, layout.spec_size() as int)
}

/// Inserting a fresh block into a map of pairwise-disjoint blocks keeps them
/// pairwise disjoint. This is the induction step behind the disjointness
/// guarantee: since every allocator's `allocate` issues only fresh blocks, no
/// two blocks returned by any sequence of successful `allocate` calls against
/// one allocator can ever overlap.
pub proof fn lemma_fresh_insert_disjoint(
    live: Map<int, BlockInfo>,
    addr: usize,
    layout: NonZeroLayout,
)
    requires
        live_pairwise_disjoint(live),
        fresh_in(live, addr as int, layout.spec_size() as int),
    ensures
        live_pairwise_disjoint(after_alloc(live, addr, layout)),
{
}

/// The view every allocator exposes: its well-formedness, the map of blocks it
/// has issued and not reclaimed, and whether releasing a block actually
/// reclaims it.
pub trait Footprint: Sized {
    spec fn wf(&self) -> bool;

    spec fn live(&self) -> Map<int, BlockInfo>;

    /// Whether `deallocate` removes the block from the live map. A bump
    /// allocator never reclaims an individual block; a page mapper does.
    spec fn reclaims(&self) -> bool;

    /// No two live blocks of one well-formed allocator overlap.
    proof fn live_disjoint(&self)
        requires
            self.wf(),
        ensures
            live_pairwise_disjoint(self.live()),
    ;
}

/// The capability to release (or at least accept back) a block.
pub trait Deallocator: Footprint {
    /// Releases the block at `addr`. The descriptor must be identical, bit for
    /// bit, to the one the block was allocated with; the live map enforces
    /// this.
    fn deallocate(&mut self, addr: usize, layout: NonZeroLayout)
        requires
            old(self).wf(),
            is_live(old(self).live(), addr, layout),
        ensures
            final(self).wf(),
            final(self).reclaims() == old(self).reclaims(),
            final(self).live() == if old(self).reclaims() {
                old(self).live().remove(addr as int)
            } else {
                old(self).live()
            },
    ;

    /// Attempts to shrink the block at `addr` in place, keeping its address.
    /// The default refuses: in-place resizing is an optional refinement.
    fn try_shrink(&mut self, addr: usize, old_layout: NonZeroLayout, new_layout: NonZeroLayout)
        -> (r: Result<(), AllocError>)
        requires
            old(self).wf(),
            is_live(old(self).live(), addr, old_layout),
            new_layout.spec_size() <= old_layout.spec_size(),
            new_layout.spec_align() <= old_layout.spec_align(),
        ensures
            final(self).wf(),
            final(self).reclaims() == old(self).reclaims(),
            match r {
                Ok(()) => final(self).live() == after_resize(old(self).live(), addr, new_layout)
                    && addr as int % new_layout.spec_align() as int == 0,
                Err(_) => final(self).live() == old(self).live(),
            },
    {
        Err(AllocError)
    }
}

/// The capability to produce new blocks.
pub trait Allocator: Footprint {
    /// Allocates a block that fits `layout`: aligned to the requested
    /// alignment, in bounds, and disjoint from every block this allocator has
    /// issued and not reclaimed.
    fn allocate(&mut self, layout: NonZeroLayout) -> (r: Result<usize, AllocError>)
        requires
            old(self).wf(),
        ensures
            final(self).wf(),
            final(self).reclaims() == old(self).reclaims(),
            match r {
                Ok(addr) => good_block(old(self).live(), addr, layout) && final(self).live()
                    == after_alloc(old(self).live(), addr, layout),
                Err(_) => final(self).live() == old(self).live(),
            },
    ;

    /// Allocates a block whose bytes the implementation promises to hand over
    /// zeroed. The address-space model does not track byte contents, so the
    /// contract is that of `allocate`; the default forwards to it.
    fn allocate_zeroed(&mut self, layout: NonZeroLayout) -> (r: Result<usize, AllocError>)
        requires
            old(self).wf(),
        ensures
            final(self).wf(),
            final(self).reclaims() == old(self).reclaims(),
            match r {
                Ok(addr) => good_block(old(self).live(), addr, layout) && final(self).live()
                    == after_alloc(old(self).live(), addr, layout),
                Err(_) => final(self).live() == old(self).live(),
            },
    {
        self.allocate(layout)
    }

    /// Attempts to grow the block at `addr` in place, keeping its address.
    /// The default refuses: in-place resizing is an optional refinement.
    fn try_grow(&mut self, addr: usize, old_layout: NonZeroLayout, new_layout: NonZeroLayout)
        -> (r: Result<(), AllocError>)
        requires
            old(self).wf(),
            is_live(old(self).live(), addr, old_layout),
            new_layout.spec_size() >= old_layout.spec_size(),
            new_layout.spec_align() <= old_layout.spec_align(),
        ensures
            final(self).wf(),
            final(self).reclaims() == old(self).reclaims(),
            match r {
                Ok(()) => final(self).live() == after_resize(old(self).live(), addr, new_layout)
                    && addr + new_layout.spec_size() <= usize::MAX && addr as int
                    % new_layout.spec_align() as int == 0,
                Err(_) => final(self).live() == old(self).live(),
            },
    {
        Err(AllocError)
    }

    /// Attempts to grow the block at `addr` in place, zeroing the added bytes.
    /// The model does not track byte contents, so the contract is that of
    /// `try_grow`, which the default forwards to.
    fn try_grow_zeroed(&mut self, addr: usize, old_layout: NonZeroLayout, new_layout: NonZeroLayout)
        -> (r: Result<(), AllocError>)
        requires
            old(self).wf(),
            is_live(old(self).live(), addr, old_layout),
            new_layout.spec_size() >= old_layout.spec_size(),
            new_layout.spec_align() <= old_layout.spec_align(),
        ensures
            final(self).wf(),
            final(self).reclaims() == old(self).reclaims(),
            match r {
                Ok(()) => final(self).live() == after_resize(old(self).live(), addr, new_layout)
                    && addr + new_layout.spec_size() <= usize::MAX && addr as int
                    % new_layout.spec_align() as int == 0,
                Err(_) => final(self).live() == old(self).live(),
            },
    {
        self.try_grow(addr, old_layout, new_layout)
    }
}

} // verus!
