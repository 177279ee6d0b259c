//! An allocator that refuses every request.

use vstd::prelude::*;
use crate::layout::{AllocError, NonZeroLayout};
use crate::traits::{Allocator, BlockInfo, Deallocator, Footprint};

verus! {

/// The allocator with no memory: every allocation fails, and nothing it ever
/// issued can come back to its `deallocate`. Useful to ban allocation
/// outright.
#[derive(Debug, Default, Clone, Copy)]
pub struct Never;

impl Footprint for Never {
    open spec fn wf(&self) -> bool {
        true
    }

    open spec fn live(&self) -> Map<int, BlockInfo> {
        Map::empty()
    }

    open spec fn reclaims(&self) -> bool {
        false
    }

    proof fn live_disjoint(&self) {
    }
}

impl Allocator for Never {
    fn allocate(&mut self, layout: NonZeroLayout) -> (r: Result<usize, AllocError>)
        ensures
            r is Err,
    {
        Err(AllocError)
    }

    fn allocate_zeroed(&mut self, layout: NonZeroLayout) -> (r: Result<usize, AllocError>)
        ensures
            r is Err,
    {
        Err(AllocError)
    }
}

impl Deallocator for Never {
    /// Unreachable: `Never` has no live block, so no call can satisfy the
    /// deallocation contract.
    fn deallocate(&mut self, addr: usize, layout: NonZeroLayout) {
    }
}

} // verus!
