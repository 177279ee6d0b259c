//! A diagnostic adapter that records every call it forwards.

use vstd::prelude::*;
use crate::layout::{AllocError, NonZeroLayout};
use crate::traits::{Allocator, BlockInfo, Deallocator, Footprint};

verus! {

/// Which operation a trace record describes.
#[derive(Debug, Clone, Copy, PartialEq, Eq, Structural)]
pub enum TraceOp {
    Allocate,
    Deallocate,
}

/// One recorded call: the operation, the block's address (zero for a failed
/// allocation), and the descriptor it was made with.
#[derive(Debug, Clone, Copy, PartialEq, Eq, Structural)]
pub struct TraceRecord {
    pub op: TraceOp,
    pub addr: usize,
    pub size: usize,
    pub align: usize,
}

/// Wraps an allocator and appends a record of every allocation and
/// deallocation, in call order, to a log the caller can inspect. The wrapped
/// allocator's behaviour is unchanged.
#[derive(Debug)]
pub struct Traced<A> {
    pub inner: A,
    pub log: Vec<TraceRecord>,
}

impl<A> Traced<A> {
    pub fn new(alloc: A) -> (r: Self)
        ensures
            r.inner() == alloc,
            r.log@ == Seq::<TraceRecord>::empty(),
    {
        Traced { inner: alloc, log: Vec::new() }
    }

    pub open spec fn inner(&self) -> A {
        self.inner
    }

    pub open spec fn log_spec(&self) -> Seq<TraceRecord> {
        self.log@
    }

    pub fn into_inner(self) -> (r: A)
        ensures
            r == self.inner(),
    {
        self.inner
    }

    /// The calls recorded so far, oldest first.
    pub fn log(&self) -> (r: &Vec<TraceRecord>)
        ensures
            r@ == self.log_spec(),
    {
        &self.log
    }
}

impl<A: Footprint> Footprint for Traced<A> {
    open spec fn wf(&self) -> bool {
        self.inner.wf()
    }

    open spec fn live(&self) -> Map<int, BlockInfo> {
        self.inner.live()
    }

    open spec fn reclaims(&self) -> bool {
        self.inner.reclaims()
    }

    proof fn live_disjoint(&self) {
        self.inner.live_disjoint();
    }
}

impl<A: Allocator> Allocator for Traced<A> {
    fn allocate(&mut self, layout: NonZeroLayout) -> (r: Result<usize, AllocError>)
        ensures
            final(self).log_spec() == old(self).log_spec().push(
                TraceRecord {
                    op: TraceOp::Allocate,
                    addr: match r {
                        Ok(a) => a,
                        Err(_) => 0,
                    },
                    size: layout.spec_size(),
                    align: layout.spec_align(),
                },
            ),
    {
        let r = self.inner.allocate(layout);
        let addr: usize = match r {
            Ok(a) => a,
            Err(_) => 0,
        };
        self.log.push(
            TraceRecord { op: TraceOp::Allocate, addr, size: layout.size(), align: layout.align() },
        );
        r
    }
}

impl<A: Allocator + Deallocator> Deallocator for Traced<A> {
    fn deallocate(&mut self, addr: usize, layout: NonZeroLayout)
        ensures
            final(self).log_spec() == old(self).log_spec().push(
                TraceRecord {
                    op: TraceOp::Deallocate,
                    addr,
                    size: layout.spec_size(),
                    align: layout.spec_align(),
                },
            ),
    {
        self.inner.deallocate(addr, layout);
        self.log.push(
            TraceRecord {
                op: TraceOp::Deallocate,
                addr,
                size: layout.size(),
                align: layout.align(),
            },
        );
    }
}

} // verus!
