//! An adapter presenting an allocator under a raw size/alignment interface
//! whose size may be zero, as a host runtime's allocator hooks expect.
//!
//! The adapter is the one place the zero-size case is handled: a zero-sized
//! request never reaches the wrapped allocator at all, and is answered with a
//! non-dereferenceable, alignment-correct placeholder address instead.

use vstd::prelude::*;
use vstd::arithmetic::power2::is_pow2;
use crate::defaults;
use crate::layout::{AllocError, NonZeroLayout};
use crate::traits::{
    after_alloc_raw, after_free, after_realloc_raw, fresh_in, is_live_raw, Allocator, BlockInfo,
    Deallocator, Footprint,
};

verus! {

/// Wraps an allocator for callers that speak in raw, possibly-zero-sized
/// layouts. Zero-sized requests are answered with the alignment itself as a
/// dangling placeholder address; everything else is validated into a
/// [`NonZeroLayout`] and forwarded.
#[derive(Debug, Default)]
pub struct AsStd<A> {
    pub inner: A,
}

impl<A> AsStd<A> {
    pub fn new(alloc: A) -> (r: Self)
        ensures
            r.inner == alloc,
    {
        AsStd { inner: alloc }
    }

    pub fn into_inner(self) -> (r: A)
        ensures
            r == self.inner,
    {
        self.inner
    }
}

impl<A: Allocator + Deallocator> AsStd<A> {
    /// Allocates under a raw layout. A zero size always succeeds, with the
    /// alignment itself as the placeholder address; otherwise the wrapped
    /// allocator decides, and its block contract holds.
    pub fn allocate(&mut self, size: usize, align: usize) -> (r: Result<usize, AllocError>)
        requires
            old(self).inner.wf(),
            is_pow2(align as int),
            align <= usize::MAX,
        ensures
            final(self).inner.wf(),
            final(self).inner.reclaims() == old(self).inner.reclaims(),
            size == 0 ==> r == Ok::<usize, AllocError>(align) && final(self).inner.live() == old(
                self,
            ).inner.live(),
            match r {
                Ok(a) => a > 0 && a as int % align as int == 0 && (size > 0 ==> a + size
                    <= usize::MAX && fresh_in(old(self).inner.live(), a as int, size as int)
                    && final(self).inner.live() == after_alloc_raw(
                    old(self).inner.live(),
                    a,
                    size,
                    align,
                )),
                Err(_) => final(self).inner.live() == old(self).inner.live(),
            },
    {
        if size == 0 {
            proof {
                crate::layout::lemma_is_pow2_pos(align as int);
                vstd::arithmetic::div_mod::lemma_mod_self_0(align as int);
            }
            return Ok(align);
        }
        match NonZeroLayout::new(size, align) {
            Some(layout) => self.inner.allocate(layout),
            None => {
                proof {
                    assert(false);
                }
                Err(AllocError)
            },
        }
    }

    /// Allocates under a raw layout with the bytes zeroed; the contract is
    /// that of [`AsStd::allocate`].
    pub fn allocate_zeroed(&mut self, size: usize, align: usize) -> (r: Result<usize, AllocError>)
        requires
            old(self).inner.wf(),
            is_pow2(align as int),
            align <= usize::MAX,
        ensures
            final(self).inner.wf(),
            final(self).inner.reclaims() == old(self).inner.reclaims(),
            size == 0 ==> r == Ok::<usize, AllocError>(align) && final(self).inner.live() == old(
                self,
            ).inner.live(),
            match r {
                Ok(a) => a > 0 && a as int % align as int == 0 && (size > 0 ==> a + size
                    <= usize::MAX && fresh_in(old(self).inner.live(), a as int, size as int)
                    && final(self).inner.live() == after_alloc_raw(
                    old(self).inner.live(),
                    a,
                    size,
                    align,
                )),
                Err(_) => final(self).inner.live() == old(self).inner.live(),
            },
    {
        if size == 0 {
            proof {
                crate::layout::lemma_is_pow2_pos(align as int);
                vstd::arithmetic::div_mod::lemma_mod_self_0(align as int);
            }
            return Ok(align);
        }
        match NonZeroLayout::new(size, align) {
            Some(layout) => self.inner.allocate_zeroed(layout),
            None => {
                proof {
                    assert(false);
                }
                Err(AllocError)
            },
        }
    }

    /// Releases a block allocated through this adapter. A zero-sized release
    /// concerns a placeholder and touches nothing.
    pub fn deallocate(&mut self, addr: usize, size: usize, align: usize)
        requires
            old(self).inner.wf(),
            size > 0 ==> is_pow2(align as int) && is_live_raw(
                old(self).inner.live(),
                addr,
                size,
                align,
            ),
        ensures
            final(self).inner.wf(),
            final(self).inner.reclaims() == old(self).inner.reclaims(),
            final(self).inner.live() == if size == 0 {
                old(self).inner.live()
            } else {
                after_free(old(self).inner.live(), addr, old(self).inner.reclaims())
            },
    {
        if size == 0 {
            return ;
        }
        match NonZeroLayout::new(size, align) {
            Some(layout) => self.inner.deallocate(addr, layout),
            None => {
                proof {
                    assert(false);
                }
            },
        }
    }

    /// Grows a block to a larger raw layout of the same alignment. Growing
    /// from size zero is a fresh allocation: the placeholder was never a
    /// block.
    pub fn grow(&mut self, addr: usize, old_size: usize, new_size: usize, align: usize) -> (r:
        Result<usize, AllocError>)
        requires
            old(self).inner.wf(),
            is_pow2(align as int),
            0 < new_size,
            old_size <= new_size,
            old_size > 0 ==> addr > 0 && is_live_raw(old(self).inner.live(), addr, old_size, align),
        ensures
            final(self).inner.wf(),
            final(self).inner.reclaims() == old(self).inner.reclaims(),
            match r {
                Ok(a) => a > 0 && a as int % align as int == 0 && a + new_size <= usize::MAX
                    && is_live_raw(final(self).inner.live(), a, new_size, align) && final(self).inner.live() == if old_size == 0 {
                    after_alloc_raw(old(self).inner.live(), a, new_size, align)
                } else {
                    after_realloc_raw(
                        old(self).inner.live(),
                        addr,
                        a,
                        new_size,
                        align,
                        old(self).inner.reclaims(),
                    )
                },
                Err(_) => final(self).inner.live() == old(self).inner.live(),
            },
    {
        let new_layout = match NonZeroLayout::new(new_size, align) {
            Some(l) => l,
            None => {
                return Err(AllocError);
            },
        };
        if old_size == 0 {
            self.inner.allocate(new_layout)
        } else {
            let old_layout = match NonZeroLayout::new(old_size, align) {
                Some(l) => l,
                None => {
                    proof {
                        assert(false);
                    }
                    return Err(AllocError);
                },
            };
            defaults::grow(&mut self.inner, addr, old_layout, new_layout)
        }
    }

    /// Grows a block with the added bytes zeroed; the contract is that of
    /// [`AsStd::grow`].
    pub fn grow_zeroed(&mut self, addr: usize, old_size: usize, new_size: usize, align: usize)
        -> (r: Result<usize, AllocError>)
        requires
            old(self).inner.wf(),
            is_pow2(align as int),
            0 < new_size,
            old_size <= new_size,
            old_size > 0 ==> addr > 0 && is_live_raw(old(self).inner.live(), addr, old_size, align),
        ensures
            final(self).inner.wf(),
            final(self).inner.reclaims() == old(self).inner.reclaims(),
            match r {
                Ok(a) => a > 0 && a as int % align as int == 0 && a + new_size <= usize::MAX
                    && is_live_raw(final(self).inner.live(), a, new_size, align) && final(self).inner.live() == if old_size == 0 {
                    after_alloc_raw(old(self).inner.live(), a, new_size, align)
                } else {
                    after_realloc_raw(
                        old(self).inner.live(),
                        addr,
                        a,
                        new_size,
                        align,
                        old(self).inner.reclaims(),
                    )
                },
                Err(_) => final(self).inner.live() == old(self).inner.live(),
            },
    {
        let new_layout = match NonZeroLayout::new(new_size, align) {
            Some(l) => l,
            None => {
                return Err(AllocError);
            },
        };
        if old_size == 0 {
            self.inner.allocate_zeroed(new_layout)
        } else {
            let old_layout = match NonZeroLayout::new(old_size, align) {
                Some(l) => l,
                None => {
                    proof {
                        assert(false);
                    }
                    return Err(AllocError);
                },
            };
            defaults::grow_zeroed(&mut self.inner, addr, old_layout, new_layout)
        }
    }

    /// Shrinks a block to a smaller raw layout of the same alignment.
    /// Shrinking to size zero releases the block and hands back the
    /// alignment-correct placeholder.
    pub fn shrink(&mut self, addr: usize, old_size: usize, new_size: usize, align: usize) -> (r:
        Result<usize, AllocError>)
        requires
            old(self).inner.wf(),
            is_pow2(align as int),
            0 < old_size,
            new_size <= old_size,
            addr > 0,
            is_live_raw(old(self).inner.live(), addr, old_size, align),
        ensures
            final(self).inner.wf(),
            final(self).inner.reclaims() == old(self).inner.reclaims(),
            new_size == 0 ==> r == Ok::<usize, AllocError>(align) && final(self).inner.live()
                == after_free(old(self).inner.live(), addr, old(self).inner.reclaims()),
            match r {
                Ok(a) => a > 0 && a as int % align as int == 0 && (new_size > 0 ==> is_live_raw(
                    final(self).inner.live(),
                    a,
                    new_size,
                    align,
                ) && final(self).inner.live() == after_realloc_raw(
                    old(self).inner.live(),
                    addr,
                    a,
                    new_size,
                    align,
                    old(self).inner.reclaims(),
                )),
                Err(_) => final(self).inner.live() == old(self).inner.live(),
            },
    {
        let old_layout = match NonZeroLayout::new(old_size, align) {
            Some(l) => l,
            None => {
                proof {
                    assert(false);
                }
                return Err(AllocError);
            },
        };
        if new_size == 0 {
            self.inner.deallocate(addr, old_layout);
            proof {
                crate::layout::lemma_is_pow2_pos(align as int);
                vstd::arithmetic::div_mod::lemma_mod_self_0(align as int);
            }
            Ok(align)
        } else {
            let new_layout = match NonZeroLayout::new(new_size, align) {
                Some(l) => l,
                None => {
                    proof {
                        assert(false);
                    }
                    return Err(AllocError);
                },
            };
            defaults::shrink(&mut self.inner, addr, old_layout, new_layout)
        }
    }
}

} // verus!
