//! An allocator over one fixed slice of memory provided at construction.

use vstd::prelude::*;
use crate::layout::{AllocError, NonZeroLayout};
use crate::region::RegionState;
use crate::traits::{Allocator, BlockInfo, Deallocator, Footprint};

verus! {

/// A bump allocator over one caller-provided slice of memory, described by its
/// base address and length. Nothing is ever reclaimed: `deallocate` is a
/// no-op, and the slice is exhausted when the padded requests have consumed
/// its length.
pub struct FixedSlice {
    pub region: RegionState,
}

impl FixedSlice {
    /// An allocator over the slice `[base, base + len)`, nothing handed out
    /// yet. The slice must stay exclusively reserved for this allocator for as
    /// long as it is used.
    pub fn from_slice(base: usize, len: usize) -> (r: Self)
        requires
            base > 0,
            base + len <= usize::MAX,
        ensures
            r.wf(),
            r.region.base_spec() == base,
            r.region.len_spec() == len,
            r.region.pos_spec() == 0,
            r.live() == Map::<int, BlockInfo>::empty(),
    {
        FixedSlice { region: RegionState::new(base, len) }
    }

    /// The portion of the slice not handed out yet, as (address, length).
    pub fn unallocated(&self) -> (r: (usize, usize))
        requires
            self.wf(),
        ensures
            r.0 == self.region.base_spec() + self.region.pos_spec(),
            r.1 == self.region.len_spec() - self.region.pos_spec(),
    {
        self.region.unallocated()
    }
}

impl Footprint for FixedSlice {
    open spec fn wf(&self) -> bool {
        self.region.wf()
    }

    open spec fn live(&self) -> Map<int, BlockInfo> {
        self.region.live()
    }

    open spec fn reclaims(&self) -> bool {
        false
    }

    proof fn live_disjoint(&self) {
    }
}

impl Allocator for FixedSlice {
    fn allocate(&mut self, layout: NonZeroLayout) -> (r: Result<usize, AllocError>)
        ensures
            r is Ok <==> old(self).region.fits(layout),
            final(self).region.base_spec() == old(self).region.base_spec(),
            final(self).region.len_spec() == old(self).region.len_spec(),
            match r {
                Ok(addr) => {
                    &&& addr == old(self).region.next_block(layout)
                    &&& addr + layout.spec_size() == final(self).region.base_spec()
                        + final(self).region.pos_spec()
                    &&& final(self).region.pos_spec() >= old(self).region.pos_spec()
                        + layout.spec_size()
                },
                Err(_) => final(self).region == old(self).region,
            },
    {
        self.region.allocate(layout)
    }

    /// The same exactly-placed bump step; the zeroing of the block's bytes is
    /// outside the address model and is the region owner's side of the
    /// bargain.
    fn allocate_zeroed(&mut self, layout: NonZeroLayout) -> (r: Result<usize, AllocError>)
        ensures
            r is Ok <==> old(self).region.fits(layout),
            final(self).region.base_spec() == old(self).region.base_spec(),
            final(self).region.len_spec() == old(self).region.len_spec(),
            match r {
                Ok(addr) => {
                    &&& addr == old(self).region.next_block(layout)
                    &&& addr + layout.spec_size() == final(self).region.base_spec()
                        + final(self).region.pos_spec()
                    &&& final(self).region.pos_spec() >= old(self).region.pos_spec()
                        + layout.spec_size()
                },
                Err(_) => final(self).region == old(self).region,
            },
    {
        self.region.allocate(layout)
    }
}

impl Deallocator for FixedSlice {
    fn deallocate(&mut self, addr: usize, layout: NonZeroLayout)
        ensures
            final(self).region == old(self).region,
    {
    }
}

} // verus!
