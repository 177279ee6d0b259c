//! The derived reallocation operations: any allocator that can allocate and
//! deallocate gains `grow`, `grow_zeroed` and `shrink` through the
//! allocate-copy-release composition here. Only the optional in-place fast
//! paths (`try_grow`, `try_shrink`) are allocator-specific.

use vstd::prelude::*;
use crate::layout::{AllocError, NonZeroLayout};
use crate::traits::{
    after_alloc, after_free, after_realloc, good_block, is_live, Allocator, BlockInfo,
    Deallocator, Footprint,
};

verus! {

/// Reallocates by brute force: allocates a fresh block under the new
/// descriptor, copies over as many bytes as both blocks hold (the address
/// model leaves the bytes to the caller), and releases the old block. The new
/// block never aliases the old one.
pub fn default_realloc<A: Allocator + Deallocator>(
    alloc: &mut A,
    addr: usize,
    old_layout: NonZeroLayout,
    new_layout: NonZeroLayout,
    zeroed: bool,
) -> (r: Result<usize, AllocError>)
    requires
        old(alloc).wf(),
        is_live(old(alloc).live(), addr, old_layout),
    ensures
        final(alloc).wf(),
        final(alloc).reclaims() == old(alloc).reclaims(),
        match r {
            Ok(new_addr) => {
                &&& good_block(old(alloc).live(), new_addr, new_layout)
                &&& new_addr != addr
                &&& final(alloc).live() == after_free(
                    after_alloc(old(alloc).live(), new_addr, new_layout),
                    addr,
                    old(alloc).reclaims(),
                )
            },
            Err(_) => final(alloc).live() == old(alloc).live(),
        },
{
    proof {
        use_type_invariant(&old_layout);
        use_type_invariant(&new_layout);
    }
    let new_addr = if zeroed {
        match alloc.allocate_zeroed(new_layout) {
            Ok(a) => a,
            Err(e) => {
                return Err(e);
            },
        }
    } else {
        match alloc.allocate(new_layout) {
            Ok(a) => a,
            Err(e) => {
                return Err(e);
            },
        }
    };
    // The old block is still live, so the fresh block cannot alias it; the
    // caller copies min(old size, new size) bytes from `addr` to `new_addr`.
    alloc.deallocate(addr, old_layout);
    Ok(new_addr)
}

/// Grows the block at `addr`: tries the allocator's in-place path first —
/// unless the new alignment is stricter than the old, which an in-place
/// resize can never honour — and falls back to allocate-copy-release. On
/// success the returned block — at the same address or a fresh one — is live
/// under the new descriptor; on failure the old block is untouched and
/// remains valid.
pub fn grow<A: Allocator + Deallocator>(
    alloc: &mut A,
    addr: usize,
    old_layout: NonZeroLayout,
    new_layout: NonZeroLayout,
) -> (r: Result<usize, AllocError>)
    requires
        old(alloc).wf(),
        addr > 0,
        is_live(old(alloc).live(), addr, old_layout),
        new_layout.spec_size() >= old_layout.spec_size(),
    ensures
        final(alloc).wf(),
        final(alloc).reclaims() == old(alloc).reclaims(),
        match r {
            Ok(new_addr) => {
                &&& new_addr > 0
                &&& new_addr as int % new_layout.spec_align() as int == 0
                &&& new_addr + new_layout.spec_size() <= usize::MAX
                &&& is_live(final(alloc).live(), new_addr, new_layout)
                &&& final(alloc).live() == after_realloc(
                    old(alloc).live(),
                    addr,
                    new_addr,
                    new_layout,
                    old(alloc).reclaims(),
                )
            },
            Err(_) => final(alloc).live() == old(alloc).live(),
        },
{
    proof {
        use_type_invariant(&new_layout);
    }
    // An in-place resize keeps the pointer, which can only satisfy an
    // alignment the old block already had; anything stricter goes straight to
    // the copy fallback.
    if new_layout.align() <= old_layout.align() {
        if let Ok(()) = alloc.try_grow(addr, old_layout, new_layout) {
            return Ok(addr);
        }
    }
    default_realloc(alloc, addr, old_layout, new_layout, false)
}

/// Grows the block at `addr` with the added bytes zeroed; the address-space
/// model leaves the zeroing itself to the implementation, so the contract is
/// that of [`grow`].
pub fn grow_zeroed<A: Allocator + Deallocator>(
    alloc: &mut A,
    addr: usize,
    old_layout: NonZeroLayout,
    new_layout: NonZeroLayout,
) -> (r: Result<usize, AllocError>)
    requires
        old(alloc).wf(),
        addr > 0,
        is_live(old(alloc).live(), addr, old_layout),
        new_layout.spec_size() >= old_layout.spec_size(),
    ensures
        final(alloc).wf(),
        final(alloc).reclaims() == old(alloc).reclaims(),
        match r {
            Ok(new_addr) => {
                &&& new_addr > 0
                &&& new_addr as int % new_layout.spec_align() as int == 0
                &&& new_addr + new_layout.spec_size() <= usize::MAX
                &&& is_live(final(alloc).live(), new_addr, new_layout)
                &&& final(alloc).live() == after_realloc(
                    old(alloc).live(),
                    addr,
                    new_addr,
                    new_layout,
                    old(alloc).reclaims(),
                )
            },
            Err(_) => final(alloc).live() == old(alloc).live(),
        },
{
    proof {
        use_type_invariant(&new_layout);
    }
    if new_layout.align() <= old_layout.align() {
        if let Ok(()) = alloc.try_grow_zeroed(addr, old_layout, new_layout) {
            return Ok(addr);
        }
    }
    default_realloc(alloc, addr, old_layout, new_layout, true)
}

/// Shrinks the block at `addr`: tries the allocator's in-place path first and
/// falls back to allocate-copy-release.
pub fn shrink<A: Allocator + Deallocator>(
    alloc: &mut A,
    addr: usize,
    old_layout: NonZeroLayout,
    new_layout: NonZeroLayout,
) -> (r: Result<usize, AllocError>)
    requires
        old(alloc).wf(),
        addr > 0,
        is_live(old(alloc).live(), addr, old_layout),
        new_layout.spec_size() <= old_layout.spec_size(),
    ensures
        final(alloc).wf(),
        final(alloc).reclaims() == old(alloc).reclaims(),
        match r {
            Ok(new_addr) => {
                &&& new_addr > 0
                &&& new_addr as int % new_layout.spec_align() as int == 0
                &&& is_live(final(alloc).live(), new_addr, new_layout)
                &&& final(alloc).live() == after_realloc(
                    old(alloc).live(),
                    addr,
                    new_addr,
                    new_layout,
                    old(alloc).reclaims(),
                )
            },
            Err(_) => final(alloc).live() == old(alloc).live(),
        },
{
    proof {
        use_type_invariant(&new_layout);
    }
    if new_layout.align() <= old_layout.align() {
        if let Ok(()) = alloc.try_shrink(addr, old_layout, new_layout) {
            return Ok(addr);
        }
    }
    default_realloc(alloc, addr, old_layout, new_layout, false)
}

/// Wraps an allocator, leaving its allocation behaviour unchanged and
/// providing the copy-based reallocation as inherent `grow` and `grow_zeroed`
/// methods.
#[derive(Debug, Default)]
pub struct DefaultGrow<A> {
    pub inner: A,
}

impl<A> DefaultGrow<A> {
    pub fn new(alloc: A) -> (r: Self)
        ensures
            r.inner() == alloc,
    {
        DefaultGrow { inner: alloc }
    }

    pub open spec fn inner(&self) -> A {
        self.inner
    }

    pub fn into_inner(self) -> (r: A)
        ensures
            r == self.inner(),
    {
        self.inner
    }

    pub fn get(&self) -> (r: &A)
        ensures
            *r == self.inner(),
    {
        &self.inner
    }
}

impl<A: Footprint> Footprint for DefaultGrow<A> {
    open spec fn wf(&self) -> bool {
        self.inner.wf()
    }

    open spec fn live(&self) -> Map<int, BlockInfo> {
        self.inner.live()
    }

    open spec fn reclaims(&self) -> bool {
        self.inner.reclaims()
    }

    proof fn live_disjoint(&self) {
        self.inner.live_disjoint();
    }
}

impl<A: Allocator> Allocator for DefaultGrow<A> {
    fn allocate(&mut self, layout: NonZeroLayout) -> (r: Result<usize, AllocError>) {
        self.inner.allocate(layout)
    }

    fn allocate_zeroed(&mut self, layout: NonZeroLayout) -> (r: Result<usize, AllocError>) {
        self.inner.allocate_zeroed(layout)
    }
}

impl<A: Allocator + Deallocator> Deallocator for DefaultGrow<A> {
    fn deallocate(&mut self, addr: usize, layout: NonZeroLayout) {
        self.inner.deallocate(addr, layout)
    }
}

impl<A: Allocator + Deallocator> DefaultGrow<A> {
    /// Reallocation by copy, skipping any in-place attempt.
    pub fn grow(&mut self, addr: usize, old_layout: NonZeroLayout, new_layout: NonZeroLayout)
        -> (r: Result<usize, AllocError>)
        requires
            old(self).inner().wf(),
            is_live(old(self).inner().live(), addr, old_layout),
        ensures
            final(self).inner().wf(),
            match r {
                Ok(new_addr) => good_block(old(self).inner().live(), new_addr, new_layout) && final(self).inner().live() == after_free(
                    after_alloc(old(self).inner().live(), new_addr, new_layout),
                    addr,
                    old(self).inner().reclaims(),
                ),
                Err(_) => final(self).inner().live() == old(self).inner().live(),
            },
    {
        default_realloc(&mut self.inner, addr, old_layout, new_layout, false)
    }

    /// Reallocation by copy with the added bytes zeroed.
    pub fn grow_zeroed(&mut self, addr: usize, old_layout: NonZeroLayout, new_layout: NonZeroLayout)
        -> (r: Result<usize, AllocError>)
        requires
            old(self).inner().wf(),
            is_live(old(self).inner().live(), addr, old_layout),
        ensures
            final(self).inner().wf(),
            match r {
                Ok(new_addr) => good_block(old(self).inner().live(), new_addr, new_layout) && final(self).inner().live() == after_free(
                    after_alloc(old(self).inner().live(), new_addr, new_layout),
                    addr,
                    old(self).inner().reclaims(),
                ),
                Err(_) => final(self).inner().live() == old(self).inner().live(),
            },
    {
        default_realloc(&mut self.inner, addr, old_layout, new_layout, true)
    }
}

} // verus!
