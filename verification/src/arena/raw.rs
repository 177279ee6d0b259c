//! Fixed-capacity bump regions in their rawest form: one immovable region and
//! one cursor, with no chunk list and no growth path. `SyncRawArena` is the
//! concurrent variant of the algorithm; `UnsyncRawArena` the single-owner one.

use vstd::prelude::*;
use crate::layout::{AllocError, NonZeroLayout};
use crate::region::RegionState;
use crate::traits::{Allocator, BlockInfo, Deallocator, Footprint};

verus! {

/// The concurrent bump region: a fixed region of known length and a cursor
/// meant to live in one atomic word. Capacity is fixed at construction; a
/// request beyond the remaining capacity deterministically fails, and
/// `deallocate` is deliberately a no-op.
///
/// Exclusive access makes each verified step here look sequential. A
/// concurrent driver repeats the step through an atomic compare-and-swap of
/// the cursor, retrying from the freshly observed value on conflict; the
/// successful updates form the chain of [`crate::bump::bump_chain`], so the
/// blocks two racing callers receive can never overlap
/// ([`crate::bump::lemma_bump_chain_disjoint`]), and the cursor only ever
/// moves forward.
pub struct SyncRawArena {
    pub region: RegionState,
}

impl SyncRawArena {
    /// A fresh region allocator over `[base, base + len)` with the cursor at
    /// zero. The region must stay valid — and immovable — for as long as the
    /// allocator is used.
    pub fn new(base: usize, len: usize) -> (r: Self)
        requires
            base > 0,
            base + len <= usize::MAX,
        ensures
            r.wf(),
            r.region.base_spec() == base,
            r.region.len_spec() == len,
            r.region.pos_spec() == 0,
            r.live() == Map::<int, BlockInfo>::empty(),
    {
        SyncRawArena { region: RegionState::new(base, len) }
    }

    /// The region this arena allocates from, as (base address, length).
    pub fn data(&self) -> (r: (usize, usize))
        ensures
            r.0 == self.region.base_spec(),
            r.1 == self.region.len_spec(),
    {
        self.region.data()
    }

    /// Resets the cursor to zero, invalidating every block handed out so far.
    /// Exclusive access — which the borrow here enforces — is the contract the
    /// caller owes: no previously returned block may still be in use.
    pub fn clear(&mut self)
        requires
            old(self).wf(),
        ensures
            final(self).wf(),
            final(self).region.base_spec() == old(self).region.base_spec(),
            final(self).region.len_spec() == old(self).region.len_spec(),
            final(self).region.pos_spec() == 0,
            final(self).live() == Map::<int, BlockInfo>::empty(),
    {
        self.region.clear()
    }
}

impl Footprint for SyncRawArena {
    open spec fn wf(&self) -> bool {
        self.region.wf()
    }

    open spec fn live(&self) -> Map<int, BlockInfo> {
        self.region.live()
    }

    open spec fn reclaims(&self) -> bool {
        false
    }

    proof fn live_disjoint(&self) {
    }
}

impl Allocator for SyncRawArena {
    fn allocate(&mut self, layout: NonZeroLayout) -> (r: Result<usize, AllocError>)
        ensures
            r is Ok <==> old(self).region.fits(layout),
            final(self).region.base_spec() == old(self).region.base_spec(),
            final(self).region.len_spec() == old(self).region.len_spec(),
            match r {
                Ok(addr) => {
                    &&& addr == old(self).region.next_block(layout)
                    &&& addr + layout.spec_size() == final(self).region.base_spec()
                        + final(self).region.pos_spec()
                    &&& final(self).region.pos_spec() >= old(self).region.pos_spec()
                        + layout.spec_size()
                },
                Err(_) => final(self).region == old(self).region,
            },
    {
        self.region.allocate(layout)
    }

    /// The same exactly-placed bump step; the zeroing of the block's bytes is
    /// outside the address model and is the region owner's side of the
    /// bargain.
    fn allocate_zeroed(&mut self, layout: NonZeroLayout) -> (r: Result<usize, AllocError>)
        ensures
            r is Ok <==> old(self).region.fits(layout),
            final(self).region.base_spec() == old(self).region.base_spec(),
            final(self).region.len_spec() == old(self).region.len_spec(),
            match r {
                Ok(addr) => {
                    &&& addr == old(self).region.next_block(layout)
                    &&& addr + layout.spec_size() == final(self).region.base_spec()
                        + final(self).region.pos_spec()
                    &&& final(self).region.pos_spec() >= old(self).region.pos_spec()
                        + layout.spec_size()
                },
                Err(_) => final(self).region == old(self).region,
            },
    {
        self.region.allocate(layout)
    }
}

impl Deallocator for SyncRawArena {
    fn deallocate(&mut self, addr: usize, layout: NonZeroLayout)
        ensures
            final(self).region == old(self).region,
    {
    }
}

/// The single-owner counterpart of [`SyncRawArena`]: the same fixed-capacity
/// bump algorithm over one region, with a plain cursor.
pub struct UnsyncRawArena {
    pub region: RegionState,
}

impl UnsyncRawArena {
    /// A fresh region allocator over `[base, base + len)` with the cursor at
    /// zero. The region must stay valid for as long as the allocator is used.
    pub fn new(base: usize, len: usize) -> (r: Self)
        requires
            base > 0,
            base + len <= usize::MAX,
        ensures
            r.wf(),
            r.region.base_spec() == base,
            r.region.len_spec() == len,
            r.region.pos_spec() == 0,
            r.live() == Map::<int, BlockInfo>::empty(),
    {
        UnsyncRawArena { region: RegionState::new(base, len) }
    }

    /// The region this arena allocates from, as (base address, length).
    pub fn data(&self) -> (r: (usize, usize))
        ensures
            r.0 == self.region.base_spec(),
            r.1 == self.region.len_spec(),
    {
        self.region.data()
    }

    /// Resets the cursor to zero, invalidating every block handed out so far;
    /// the exclusive borrow enforces that no block is still borrowed through
    /// this allocator.
    pub fn clear(&mut self)
        requires
            old(self).wf(),
        ensures
            final(self).wf(),
            final(self).region.base_spec() == old(self).region.base_spec(),
            final(self).region.len_spec() == old(self).region.len_spec(),
            final(self).region.pos_spec() == 0,
            final(self).live() == Map::<int, BlockInfo>::empty(),
    {
        self.region.clear()
    }
}

impl Footprint for UnsyncRawArena {
    open spec fn wf(&self) -> bool {
        self.region.wf()
    }

    open spec fn live(&self) -> Map<int, BlockInfo> {
        self.region.live()
    }

    open spec fn reclaims(&self) -> bool {
        false
    }

    proof fn live_disjoint(&self) {
    }
}

impl Allocator for UnsyncRawArena {
    fn allocate(&mut self, layout: NonZeroLayout) -> (r: Result<usize, AllocError>)
        ensures
            r is Ok <==> old(self).region.fits(layout),
            final(self).region.base_spec() == old(self).region.base_spec(),
            final(self).region.len_spec() == old(self).region.len_spec(),
            match r {
                Ok(addr) => {
                    &&& addr == old(self).region.next_block(layout)
                    &&& addr + layout.spec_size() == final(self).region.base_spec()
                        + final(self).region.pos_spec()
                    &&& final(self).region.pos_spec() >= old(self).region.pos_spec()
                        + layout.spec_size()
                },
                Err(_) => final(self).region == old(self).region,
            },
    {
        self.region.allocate(layout)
    }

    /// The same exactly-placed bump step; the zeroing of the block's bytes is
    /// outside the address model and is the region owner's side of the
    /// bargain.
    fn allocate_zeroed(&mut self, layout: NonZeroLayout) -> (r: Result<usize, AllocError>)
        ensures
            r is Ok <==> old(self).region.fits(layout),
            final(self).region.base_spec() == old(self).region.base_spec(),
            final(self).region.len_spec() == old(self).region.len_spec(),
            match r {
                Ok(addr) => {
                    &&& addr == old(self).region.next_block(layout)
                    &&& addr + layout.spec_size() == final(self).region.base_spec()
                        + final(self).region.pos_spec()
                    &&& final(self).region.pos_spec() >= old(self).region.pos_spec()
                        + layout.spec_size()
                },
                Err(_) => final(self).region == old(self).region,
            },
    {
        self.region.allocate(layout)
    }
}

impl Deallocator for UnsyncRawArena {
    fn deallocate(&mut self, addr: usize, layout: NonZeroLayout)
        ensures
            final(self).region == old(self).region,
    {
    }
}

} // verus!

