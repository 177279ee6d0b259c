//! An adapter that allocates through its inner allocator and leaks on purpose.

use vstd::prelude::*;
use crate::layout::{AllocError, NonZeroLayout};
use crate::traits::{Allocator, BlockInfo, Deallocator, Footprint};

verus! {

/// Wraps an allocator and turns its `deallocate` into a deliberate no-op:
/// every block lives until the inner allocator itself goes away. Unlike a
/// forgotten free, the leak is visible in the type and in the contract — the
/// live map never shrinks.
#[derive(Debug, Default)]
pub struct Leak<A> {
    pub inner: A,
}

impl<A> Leak<A> {
    pub fn new(alloc: A) -> (r: Self)
        ensures
            r.inner() == alloc,
    {
        Leak { inner: alloc }
    }

    pub open spec fn inner(&self) -> A {
        self.inner
    }

    pub fn into_inner(self) -> (r: A)
        ensures
            r == self.inner(),
    {
        self.inner
    }
}

impl<A: Footprint> Footprint for Leak<A> {
    open spec fn wf(&self) -> bool {
        self.inner.wf()
    }

    open spec fn live(&self) -> Map<int, BlockInfo> {
        self.inner.live()
    }

    open spec fn reclaims(&self) -> bool {
        false
    }

    proof fn live_disjoint(&self) {
        self.inner.live_disjoint();
    }
}

impl<A: Allocator> Allocator for Leak<A> {
    fn allocate(&mut self, layout: NonZeroLayout) -> (r: Result<usize, AllocError>) {
        self.inner.allocate(layout)
    }

    fn allocate_zeroed(&mut self, layout: NonZeroLayout) -> (r: Result<usize, AllocError>) {
        self.inner.allocate_zeroed(layout)
    }
}

impl<A: Footprint> Deallocator for Leak<A> {
    fn deallocate(&mut self, addr: usize, layout: NonZeroLayout) {
    }
}

} // verus!
