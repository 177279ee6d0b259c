//! The bridge from an allocator to a process-wide default-allocator hook.
//!
//! A host runtime's global hook speaks in raw pointers, raw layouts whose size
//! may be zero, and a bare `realloc(ptr, layout, new_size)`. The bridge holds
//! no logic of its own beyond translating that vocabulary: the null address
//! reports failure, a zero-sized request is answered with an aligned dangling
//! placeholder instead of reaching the allocator, and `realloc` is split into
//! grow, shrink or no-op by comparing the sizes.

use vstd::prelude::*;
use vstd::arithmetic::power2::is_pow2;
use crate::defaults;
use crate::layout::{AllocError, NonZeroLayout};
use crate::traits::{
    after_alloc_raw, after_free, after_realloc_raw, fresh_in, is_live_raw, Allocator, BlockInfo,
    Deallocator, Footprint,
};

verus! {

/// Wraps an allocator so that it can stand behind a process-wide allocator
/// hook. The wrapper only translates: every decision it makes is in its
/// contracts, and the wrapped allocator does the allocating.
#[derive(Debug, Default)]
pub struct WrapAsGlobal<A> {
    pub allocator: A,
}

impl<A> WrapAsGlobal<A> {
    pub fn new(allocator: A) -> (r: Self)
        ensures
            r.allocator == allocator,
    {
        WrapAsGlobal { allocator }
    }

    pub fn get_ref(&self) -> (r: &A)
        ensures
            *r == self.allocator,
    {
        &self.allocator
    }

    pub fn get(&self) -> (r: &A)
        ensures
            *r == self.allocator,
    {
        &self.allocator
    }

    pub fn get_mut(&mut self) -> (r: &mut A)
        ensures
            *r == old(self).allocator,
            final(self).allocator == *final(r),
    {
        &mut self.allocator
    }

    pub fn into_inner(self) -> (r: A)
        ensures
            r == self.allocator,
    {
        self.allocator
    }
}

impl<A: Allocator + Deallocator> WrapAsGlobal<A> {
    /// The hook's allocation entry: hands back the block's address, the
    /// aligned placeholder for a zero-sized request, or the null address on
    /// failure.
    pub fn allocate(&mut self, size: usize, align: usize) -> (r: usize)
        requires
            old(self).allocator.wf(),
            is_pow2(align as int),
        ensures
            final(self).allocator.wf(),
            final(self).allocator.reclaims() == old(self).allocator.reclaims(),
            size == 0 ==> r == align && final(self).allocator.live() == old(self).allocator.live(),
            r != 0 ==> r as int % align as int == 0,
            r != 0 && size > 0 ==> r + size <= usize::MAX && fresh_in(
                old(self).allocator.live(),
                r as int,
                size as int,
            ) && final(self).allocator.live() == after_alloc_raw(
                old(self).allocator.live(),
                r,
                size,
                align,
            ),
            r == 0 ==> final(self).allocator.live() == old(self).allocator.live(),
    {
        proof {
            crate::layout::lemma_is_pow2_pos(align as int);
            vstd::arithmetic::div_mod::lemma_mod_self_0(align as int);
        }
        if size == 0 {
            return align;
        }
        match NonZeroLayout::new(size, align) {
            Some(layout) => match self.allocator.allocate(layout) {
                Ok(addr) => addr,
                Err(_) => 0,
            },
            None => {
                proof {
                    assert(false);
                }
                0
            },
        }
    }

    /// The hook's zeroed allocation entry; the contract is that of
    /// [`WrapAsGlobal::allocate`].
    pub fn allocate_zeroed(&mut self, size: usize, align: usize) -> (r: usize)
        requires
            old(self).allocator.wf(),
            is_pow2(align as int),
        ensures
            final(self).allocator.wf(),
            final(self).allocator.reclaims() == old(self).allocator.reclaims(),
            size == 0 ==> r == align && final(self).allocator.live() == old(self).allocator.live(),
            r != 0 ==> r as int % align as int == 0,
            r != 0 && size > 0 ==> r + size <= usize::MAX && fresh_in(
                old(self).allocator.live(),
                r as int,
                size as int,
            ) && final(self).allocator.live() == after_alloc_raw(
                old(self).allocator.live(),
                r,
                size,
                align,
            ),
            r == 0 ==> final(self).allocator.live() == old(self).allocator.live(),
    {
        proof {
            crate::layout::lemma_is_pow2_pos(align as int);
            vstd::arithmetic::div_mod::lemma_mod_self_0(align as int);
        }
        if size == 0 {
            return align;
        }
        match NonZeroLayout::new(size, align) {
            Some(layout) => match self.allocator.allocate_zeroed(layout) {
                Ok(addr) => addr,
                Err(_) => 0,
            },
            None => {
                proof {
                    assert(false);
                }
                0
            },
        }
    }

    /// The hook's release entry: ignores the null address and zero-sized
    /// placeholders, and releases everything else under its exact descriptor.
    pub fn deallocate(&mut self, addr: usize, size: usize, align: usize)
        requires
            old(self).allocator.wf(),
            addr != 0 && size > 0 ==> is_pow2(align as int) && is_live_raw(
                old(self).allocator.live(),
                addr,
                size,
                align,
            ),
        ensures
            final(self).allocator.wf(),
            final(self).allocator.reclaims() == old(self).allocator.reclaims(),
            final(self).allocator.live() == if addr != 0 && size > 0 {
                after_free(old(self).allocator.live(), addr, old(self).allocator.reclaims())
            } else {
                old(self).allocator.live()
            },
    {
        if addr == 0 || size == 0 {
            return ;
        }
        match NonZeroLayout::new(size, align) {
            Some(layout) => self.allocator.deallocate(addr, layout),
            None => {
                proof {
                    assert(false);
                }
            },
        }
    }

    /// The hook's reallocation entry, split by the old and new sizes: nothing
    /// to do when they are equal, a fresh allocation when the block was a
    /// zero-sized placeholder, a release and a placeholder when the new size
    /// is zero, and otherwise a grow or shrink under the same alignment. The
    /// null address reports failure; after a failure the old block is
    /// untouched.
    pub fn realloc(&mut self, addr: usize, size: usize, align: usize, new_size: usize) -> (r: usize)
        requires
            old(self).allocator.wf(),
            is_pow2(align as int),
            size > 0 && new_size > 0 ==> addr > 0 && addr as int % align as int == 0 && is_live_raw(
                old(self).allocator.live(),
                addr,
                size,
                align,
            ),
            size > 0 && new_size == 0 && addr != 0 ==> is_live_raw(
                old(self).allocator.live(),
                addr,
                size,
                align,
            ),
        ensures
            final(self).allocator.wf(),
            final(self).allocator.reclaims() == old(self).allocator.reclaims(),
            r != 0 && new_size > 0 ==> r as int % align as int == 0,
            size == 0 && new_size == 0 ==> r == addr && final(self).allocator.live() == old(self).allocator.live(),
            size == 0 && new_size > 0 && r != 0 ==> final(self).allocator.live()
                == after_alloc_raw(old(self).allocator.live(), r, new_size, align),
            size > 0 && new_size == 0 ==> r == align && final(self).allocator.live() == if addr
                != 0 {
                after_free(old(self).allocator.live(), addr, old(self).allocator.reclaims())
            } else {
                old(self).allocator.live()
            },
            size > 0 && new_size > 0 && size == new_size ==> r == addr && final(self).allocator.live() == old(self).allocator.live(),
            size > 0 && new_size > 0 && size != new_size && r != 0 ==> is_live_raw(
                final(self).allocator.live(),
                r,
                new_size,
                align,
            ) && final(self).allocator.live() == after_realloc_raw(
                old(self).allocator.live(),
                addr,
                r,
                new_size,
                align,
                old(self).allocator.reclaims(),
            ),
            r == 0 ==> final(self).allocator.live() == old(self).allocator.live(),
    {
        proof {
            crate::layout::lemma_is_pow2_pos(align as int);
            vstd::arithmetic::div_mod::lemma_mod_self_0(align as int);
        }
        if size == 0 && new_size == 0 {
            return addr;
        }
        if size == 0 {
            return self.allocate(new_size, align);
        }
        if new_size == 0 {
            self.deallocate(addr, size, align);
            return align;
        }
        if size == new_size {
            return addr;
        }
        let old_layout = match NonZeroLayout::new(size, align) {
            Some(l) => l,
            None => {
                proof {
                    assert(false);
                }
                return 0;
            },
        };
        let new_layout = match NonZeroLayout::new(new_size, align) {
            Some(l) => l,
            None => {
                proof {
                    assert(false);
                }
                return 0;
            },
        };
        let result = if size < new_size {
            defaults::grow(&mut self.allocator, addr, old_layout, new_layout)
        } else {
            defaults::shrink(&mut self.allocator, addr, old_layout, new_layout)
        };
        match result {
            Ok(a) => a,
            Err(_) => 0,
        }
    }
}

} // verus!
