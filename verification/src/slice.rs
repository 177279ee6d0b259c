//! Bump allocators over one caller-provided memory region of fixed capacity.
//!
//! `Slice` is the single-owner variant; `SyncSlice` is its counterpart for the
//! concurrent bump algorithm. Both expose the same exactly-specified bump
//! step; neither ever reclaims an individual block.

use vstd::prelude::*;
use crate::layout::{AllocError, NonZeroLayout};
use crate::region::RegionState;
use crate::traits::{Allocator, BlockInfo, Deallocator, Footprint};

verus! {

/// A fixed-capacity bump allocator over the region `[base, base + len)`.
/// Allocation succeeds exactly as long as the padded request fits the
/// remaining capacity; `deallocate` is deliberately a no-op, since a bump
/// allocator has no object-level free.
pub struct Slice {
    pub region: RegionState,
}

impl Slice {
    /// A fresh allocator over the region `[base, base + len)`, with nothing
    /// handed out yet. The region must lie inside the address space and away
    /// from the null address.
    pub fn new(base: usize, len: usize) -> (r: Self)
        requires
            base > 0,
            base + len <= usize::MAX,
        ensures
            r.wf(),
            r.region.base_spec() == base,
            r.region.len_spec() == len,
            r.region.pos_spec() == 0,
            r.live() == Map::<int, BlockInfo>::empty(),
    {
        Slice { region: RegionState::new(base, len) }
    }
}

impl Footprint for Slice {
    open spec fn wf(&self) -> bool {
        self.region.wf()
    }

    open spec fn live(&self) -> Map<int, BlockInfo> {
        self.region.live()
    }

    open spec fn reclaims(&self) -> bool {
        false
    }

    proof fn live_disjoint(&self) {
    }
}

impl Allocator for Slice {
    fn allocate(&mut self, layout: NonZeroLayout) -> (r: Result<usize, AllocError>)
        ensures
            r is Ok <==> old(self).region.fits(layout),
            final(self).region.base_spec() == old(self).region.base_spec(),
            final(self).region.len_spec() == old(self).region.len_spec(),
            match r {
                Ok(addr) => {
                    &&& addr == old(self).region.next_block(layout)
                    &&& addr + layout.spec_size() == final(self).region.base_spec()
                        + final(self).region.pos_spec()
                    &&& final(self).region.pos_spec() >= old(self).region.pos_spec()
                        + layout.spec_size()
                },
                Err(_) => final(self).region == old(self).region,
            },
    {
        self.region.allocate(layout)
    }

    /// The same exactly-placed bump step; the zeroing of the block's bytes is
    /// outside the address model and is the region owner's side of the
    /// bargain.
    fn allocate_zeroed(&mut self, layout: NonZeroLayout) -> (r: Result<usize, AllocError>)
        ensures
            r is Ok <==> old(self).region.fits(layout),
            final(self).region.base_spec() == old(self).region.base_spec(),
            final(self).region.len_spec() == old(self).region.len_spec(),
            match r {
                Ok(addr) => {
                    &&& addr == old(self).region.next_block(layout)
                    &&& addr + layout.spec_size() == final(self).region.base_spec()
                        + final(self).region.pos_spec()
                    &&& final(self).region.pos_spec() >= old(self).region.pos_spec()
                        + layout.spec_size()
                },
                Err(_) => final(self).region == old(self).region,
            },
    {
        self.region.allocate(layout)
    }
}

impl Deallocator for Slice {
    fn deallocate(&mut self, addr: usize, layout: NonZeroLayout)
        ensures
            final(self).region == old(self).region,
    {
    }
}

/// The concurrent counterpart of [`Slice`]: the same fixed-capacity bump
/// algorithm, with a cursor meant to live in one atomic word.
///
/// Exclusive access makes each verified step here look sequential. A
/// concurrent driver repeats the step through an atomic compare-and-swap of
/// the cursor, retrying on conflict; the successful updates then form exactly
/// the chain of [`crate::bump::bump_chain`], so the blocks two racing callers
/// receive can never overlap (see
/// [`crate::bump::lemma_bump_chain_disjoint`]).
pub struct SyncSlice {
    pub region: RegionState,
}

impl SyncSlice {
    /// A fresh allocator over the region `[base, base + len)`, with nothing
    /// handed out yet.
    pub fn new(base: usize, len: usize) -> (r: Self)
        requires
            base > 0,
            base + len <= usize::MAX,
        ensures
            r.wf(),
            r.region.base_spec() == base,
            r.region.len_spec() == len,
            r.region.pos_spec() == 0,
            r.live() == Map::<int, BlockInfo>::empty(),
    {
        SyncSlice { region: RegionState::new(base, len) }
    }
}

impl Footprint for SyncSlice {
    open spec fn wf(&self) -> bool {
        self.region.wf()
    }

    open spec fn live(&self) -> Map<int, BlockInfo> {
        self.region.live()
    }

    open spec fn reclaims(&self) -> bool {
        false
    }

    proof fn live_disjoint(&self) {
    }
}

impl Allocator for SyncSlice {
    fn allocate(&mut self, layout: NonZeroLayout) -> (r: Result<usize, AllocError>)
        ensures
            r is Ok <==> old(self).region.fits(layout),
            final(self).region.base_spec() == old(self).region.base_spec(),
            final(self).region.len_spec() == old(self).region.len_spec(),
            match r {
                Ok(addr) => {
                    &&& addr == old(self).region.next_block(layout)
                    &&& addr + layout.spec_size() == final(self).region.base_spec()
                        + final(self).region.pos_spec()
                    &&& final(self).region.pos_spec() >= old(self).region.pos_spec()
                        + layout.spec_size()
                },
                Err(_) => final(self).region == old(self).region,
            },
    {
        self.region.allocate(layout)
    }

    /// The same exactly-placed bump step; the zeroing of the block's bytes is
    /// outside the address model and is the region owner's side of the
    /// bargain.
    fn allocate_zeroed(&mut self, layout: NonZeroLayout) -> (r: Result<usize, AllocError>)
        ensures
            r is Ok <==> old(self).region.fits(layout),
            final(self).region.base_spec() == old(self).region.base_spec(),
            final(self).region.len_spec() == old(self).region.len_spec(),
            match r {
                Ok(addr) => {
                    &&& addr == old(self).region.next_block(layout)
                    &&& addr + layout.spec_size() == final(self).region.base_spec()
                        + final(self).region.pos_spec()
                    &&& final(self).region.pos_spec() >= old(self).region.pos_spec()
                        + layout.spec_size()
                },
                Err(_) => final(self).region == old(self).region,
            },
    {
        self.region.allocate(layout)
    }
}

impl Deallocator for SyncSlice {
    fn deallocate(&mut self, addr: usize, layout: NonZeroLayout)
        ensures
            final(self).region == old(self).region,
    {
    }
}

} // verus!
