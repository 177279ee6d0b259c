//! An adapter that admits exactly one allocation.

use vstd::prelude::*;
use crate::layout::{AllocError, NonZeroLayout};
use crate::traits::{after_alloc, good_block, is_live, Allocator, Deallocator, Footprint};

verus! {

/// Enforces that at most one allocation is ever performed. Useful in
/// resource-constrained systems to guarantee that no allocation occurs without
/// explicit request: a second request is ruled out by contract rather than
/// detected at run time.
#[derive(Debug, Default)]
pub struct Once<A> {
    pub alloc: A,
    pub tripped: bool,
}

impl<A> Once<A> {
    pub fn new(alloc: A) -> (r: Self)
        ensures
            r.inner() == alloc,
            !r.tripped(),
    {
        Once { alloc, tripped: false }
    }

    pub open spec fn inner(&self) -> A {
        self.alloc
    }

    /// Whether the one permitted allocation has been made.
    pub open spec fn tripped(&self) -> bool {
        self.tripped
    }

    pub fn into_inner(self) -> (r: A)
        ensures
            r == self.inner(),
    {
        self.alloc
    }
}

impl<A: Allocator> Once<A> {
    /// The one permitted allocation.
    pub fn allocate(&mut self, layout: NonZeroLayout) -> (r: Result<usize, AllocError>)
        requires
            !old(self).tripped(),
            old(self).inner().wf(),
        ensures
            final(self).tripped(),
            final(self).inner().wf(),
            match r {
                Ok(addr) => good_block(old(self).inner().live(), addr, layout) && final(self).inner().live() == after_alloc(old(self).inner().live(), addr, layout),
                Err(_) => final(self).inner().live() == old(self).inner().live(),
            },
    {
        self.tripped = true;
        self.alloc.allocate(layout)
    }

    /// The one permitted allocation, zeroed.
    pub fn allocate_zeroed(&mut self, layout: NonZeroLayout) -> (r: Result<usize, AllocError>)
        requires
            !old(self).tripped(),
            old(self).inner().wf(),
        ensures
            final(self).tripped(),
            final(self).inner().wf(),
            match r {
                Ok(addr) => good_block(old(self).inner().live(), addr, layout) && final(self).inner().live() == after_alloc(old(self).inner().live(), addr, layout),
                Err(_) => final(self).inner().live() == old(self).inner().live(),
            },
    {
        self.tripped = true;
        self.alloc.allocate_zeroed(layout)
    }
}

impl<A: Allocator + Deallocator> Once<A> {
    /// Releases the one block. Only a pointer from the one allocation can meet
    /// this contract, so the adapter has necessarily tripped.
    pub fn deallocate(&mut self, addr: usize, layout: NonZeroLayout)
        requires
            old(self).tripped(),
            old(self).inner().wf(),
            is_live(old(self).inner().live(), addr, layout),
        ensures
            final(self).tripped(),
            final(self).inner().wf(),
            final(self).inner().live() == if old(self).inner().reclaims() {
                old(self).inner().live().remove(addr as int)
            } else {
                old(self).inner().live()
            },
    {
        self.alloc.deallocate(addr, layout)
    }
}

} // verus!
