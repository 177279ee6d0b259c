//! A block paired with the deallocator that can release it.

use vstd::prelude::*;
use crate::layout::NonZeroLayout;
use crate::traits::{after_free, is_live, Deallocator};

verus! {

/// One allocation, carried together with its exact descriptor and the
/// deallocator it came from, so that it can only ever be released the one
/// correct way.
#[derive(Debug)]
pub struct Allocation<D> {
    pub addr: usize,
    pub layout: NonZeroLayout,
    pub dealloc: D,
}

impl<D: Deallocator> Allocation<D> {
    /// Records a block under the descriptor it was allocated with.
    pub fn new(addr: usize, layout: NonZeroLayout, dealloc: D) -> (r: Self)
        ensures
            r.addr == addr,
            r.layout == layout,
            r.dealloc == dealloc,
    {
        Allocation { addr, layout, dealloc }
    }

    /// Releases the block with its recorded descriptor and hands the
    /// deallocator back.
    pub fn free(self) -> (r: D)
        requires
            self.dealloc.wf(),
            is_live(self.dealloc.live(), self.addr, self.layout),
        ensures
            r.wf(),
            r.reclaims() == self.dealloc.reclaims(),
            r.live() == after_free(self.dealloc.live(), self.addr, self.dealloc.reclaims()),
    {
        let Allocation { addr, layout, mut dealloc } = self;
        dealloc.deallocate(addr, layout);
        dealloc
    }
}

} // verus!
