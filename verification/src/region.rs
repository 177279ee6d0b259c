//! The state shared by every fixed-capacity bump allocator in the crate: one
//! immovable memory region and one cursor that only moves forward. Each public
//! region allocator wraps this core and inherits its proofs.

use vstd::prelude::*;
use crate::bump::{bump_fits, bump_step};
use crate::layout::{AllocError, NonZeroLayout};
use crate::traits::{
    after_alloc, fresh_in, good_block, lemma_fresh_insert_disjoint, live_pairwise_disjoint,
    BlockInfo,
};

verus! {

/// A region `[base, base + len)`, a cursor `pos` counting the bytes handed
/// out so far, and the record of every block issued.
pub struct RegionState {
    pub base: usize,
    pub len: usize,
    pub pos: usize,
    pub issued: Ghost<Map<int, BlockInfo>>,
}

impl RegionState {
    pub open spec fn base_spec(&self) -> usize {
        self.base
    }

    pub open spec fn len_spec(&self) -> usize {
        self.len
    }

    pub open spec fn pos_spec(&self) -> usize {
        self.pos
    }

    pub open spec fn live(&self) -> Map<int, BlockInfo> {
        self.issued@
    }

    /// Every issued block lies inside the used prefix of the region, below the
    /// cursor, and no two issued blocks overlap.
    pub open spec fn wf(&self) -> bool {
        &&& self.base > 0
        &&& self.base + self.len <= usize::MAX
        &&& self.pos <= self.len
        &&& live_pairwise_disjoint(self.issued@)
        &&& forall|a: int|
            self.issued@.dom().contains(a) ==> self.base <= a && a + self.issued@[a].size
                <= self.base + self.pos
    }

    pub fn new(base: usize, len: usize) -> (r: Self)
        requires
            base > 0,
            base + len <= usize::MAX,
        ensures
            r.wf(),
            r.base_spec() == base,
            r.len_spec() == len,
            r.pos_spec() == 0,
            r.live() == Map::<int, BlockInfo>::empty(),
    {
        RegionState { base, len, pos: 0, issued: Ghost(Map::empty()) }
    }

    /// The exact success condition of one allocation at the current cursor.
    pub open spec fn fits(&self, layout: NonZeroLayout) -> bool {
        bump_fits(self.base, self.len, self.pos, layout)
    }

    /// The address the next successful allocation under `layout` returns: the
    /// cursor, rounded up to the requested alignment.
    pub open spec fn next_block(&self, layout: NonZeroLayout) -> int {
        self.base + self.pos + crate::bump::align_offset(
            self.base + self.pos,
            layout.spec_align() as int,
        )
    }

    /// Bump-allocates one block. Succeeds if and only if the padded request
    /// fits the remaining capacity; on success the block sits exactly at the
    /// cursor rounded up to the requested alignment and the cursor moves to
    /// exactly the block's end — so it strictly advances, by at least the
    /// requested size — and the block is aligned, inside the region, and
    /// disjoint from every block issued before it.
    pub fn allocate(&mut self, layout: NonZeroLayout) -> (r: Result<usize, AllocError>)
        requires
            old(self).wf(),
        ensures
            final(self).wf(),
            final(self).base_spec() == old(self).base_spec(),
            final(self).len_spec() == old(self).len_spec(),
            r is Ok <==> old(self).fits(layout),
            match r {
                Ok(addr) => {
                    &&& good_block(old(self).live(), addr, layout)
                    &&& final(self).live() == after_alloc(old(self).live(), addr, layout)
                    &&& addr == old(self).next_block(layout)
                    &&& addr + layout.spec_size() == final(self).base_spec()
                        + final(self).pos_spec()
                    &&& old(self).base_spec() <= addr
                    &&& addr + layout.spec_size() <= old(self).base_spec() + old(self).len_spec()
                    &&& final(self).pos_spec() >= old(self).pos_spec() + layout.spec_size()
                    &&& final(self).pos_spec() > old(self).pos_spec()
                },
                Err(_) => *final(self) == *old(self),
            },
    {
        match bump_step(self.base, self.len, self.pos, layout) {
            Some(b) => {
                let addr = self.base + b.offset;
                proof {
                    use_type_invariant(&layout);
                    assert(fresh_in(self.issued@, addr as int, layout.spec_size() as int));
                    lemma_fresh_insert_disjoint(self.issued@, addr, layout);
                }
                self.issued = Ghost(after_alloc(self.issued@, addr, layout));
                self.pos = b.new_pos;
                Ok(addr)
            },
            None => Err(AllocError),
        }
    }

    /// Resets the cursor and forgets every issued block. The borrow checker
    /// enforces what the original contract demanded of the caller: exclusive
    /// access, hence no allocation still in use through this allocator.
    pub fn clear(&mut self)
        requires
            old(self).wf(),
        ensures
            final(self).wf(),
            final(self).base_spec() == old(self).base_spec(),
            final(self).len_spec() == old(self).len_spec(),
            final(self).pos_spec() == 0,
            final(self).live() == Map::<int, BlockInfo>::empty(),
    {
        self.pos = 0;
        self.issued = Ghost(Map::empty());
    }

    /// The region this allocator draws from, as (base address, length).
    pub fn data(&self) -> (r: (usize, usize))
        ensures
            r.0 == self.base_spec(),
            r.1 == self.len_spec(),
    {
        (self.base, self.len)
    }

    /// The address and length of the portion not handed out yet.
    pub fn unallocated(&self) -> (r: (usize, usize))
        requires
            self.wf(),
        ensures
            r.0 == self.base_spec() + self.pos_spec(),
            r.1 == self.len_spec() - self.pos_spec(),
    {
        (self.base + self.pos, self.len - self.pos)
    }
}

} // verus!
