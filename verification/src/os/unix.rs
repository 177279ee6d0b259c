//! Page-mapping arithmetic for a POSIX-style mapper: page rounding, the
//! over-allocation trim for alignments beyond a page, and resize planning.
//!
//! A mapping call hands back addresses at page granularity and nothing finer,
//! so everything an allocator must add — rounding sizes up to whole pages,
//! trimming an oversized mapping down to an over-aligned block, choosing what
//! to unmap on release — is computed and proved here. The caller performs the
//! map, unmap and protect calls these plans describe.

use vstd::prelude::*;
use vstd::arithmetic::power2::is_pow2;
use crate::bump::{align_offset, lemma_align_offset, lemma_align_offset_granular};
use crate::layout::{is_power_of_two, lemma_is_pow2_pos, lemma_pow2_divides, AllocError,
    NonZeroLayout};

verus! {

/// This mapper can release pages back to the operating system. (A
/// linear-memory target, whose memory only grows, cannot.)
pub fn supports_deallocation() -> (r: bool)
    ensures
        r,
{
    true
}

/// How many whole pages of size `ps` cover `size` bytes.
pub open spec fn spec_pages_for(ps: int, size: int) -> int {
    (size + ps - 1) / ps
}

/// Page rounding covers the size and wastes less than one page.
pub proof fn lemma_pages_for(ps: int, size: int)
    requires
        ps > 0,
        size >= 0,
    ensures
        size <= spec_pages_for(ps, size) * ps < size + ps,
        spec_pages_for(ps, size) >= 0,
    {
        let n = spec_pages_for(ps, size);
        vstd::arithmetic::div_mod::lemma_fundamental_div_mod(size + ps - 1, ps);
        vstd::arithmetic::div_mod::lemma_mod_division_less_than_divisor(size + ps - 1, ps);
        assert(n * ps == ps * n) by (nonlinear_arith);
        if n < 0 {
            assert(ps * n <= -ps) by (nonlinear_arith)
                requires
                    ps > 0,
                    n <= -1,
            ;
        }
    }

/// One mapping request: how many pages to map, and whether the mapping is
/// oversized so that an over-aligned block can be trimmed out of it. An
/// oversized mapping may be created without read/write access, to avoid
/// committing memory that the trim gives back.
#[derive(Debug, Clone, Copy, PartialEq, Eq, Structural)]
pub struct MapPlan {
    pub pages: usize,
    pub oversized: bool,
}

/// The trim of a fresh mapping: `lead_pages` to unmap from the front,
/// `keep_pages` retained at `addr` (with read/write protection restored if the
/// mapping was oversized), and `tail_pages` to unmap from the back.
#[derive(Debug, Clone, Copy, PartialEq, Eq, Structural)]
pub struct MapTrim {
    pub addr: usize,
    pub lead_pages: usize,
    pub keep_pages: usize,
    pub tail_pages: usize,
}

/// A POSIX-style page mapper with a known page size. The page size is
/// discovered once, from the platform, and validated here: it must be a power
/// of two.
#[derive(Debug, Clone, Copy, PartialEq, Eq, Structural)]
pub struct Mmap {
    page_size: usize,
}

impl Mmap {
    pub closed spec fn spec_page_size(&self) -> usize {
        self.page_size
    }

    pub open spec fn wf(&self) -> bool {
        is_pow2(self.spec_page_size() as int)
    }

    #[verifier::type_invariant]
    pub(crate) open spec fn type_inv(self) -> bool {
        self.wf()
    }

    /// Accepts the platform's reported page size if it is a power of two.
    pub fn new(page_size: usize) -> (r: Option<Self>)
        ensures
            r matches Some(m) ==> m.spec_page_size() == page_size,
            r is Some <==> is_pow2(page_size as int),
    {
        if is_power_of_two(page_size) {
            Some(Mmap { page_size })
        } else {
            None
        }
    }

    #[verifier::when_used_as_spec(spec_page_size)]
    pub fn page_size(&self) -> (r: usize)
        ensures
            r == self.spec_page_size(),
            r > 0,
            is_pow2(r as int),
    {
        proof {
            use_type_invariant(self);
            lemma_is_pow2_pos(self.page_size as int);
        }
        self.page_size
    }

    /// How many whole pages cover `size` bytes; fails only when the rounding
    /// itself would leave the address space.
    pub fn pages_for(&self, size: usize) -> (r: Result<usize, AllocError>)
        ensures
            r matches Ok(n) ==> n == spec_pages_for(self.spec_page_size() as int, size as int)
                && size <= n * self.spec_page_size() < size + self.spec_page_size(),
            r is Ok <==> size + self.spec_page_size() - 1 <= usize::MAX,
    {
        let ps = self.page_size();
        match size.checked_add(ps - 1) {
            Some(v) => {
                proof {
                    lemma_pages_for(ps as int, size as int);
                }
                Ok(v / ps)
            },
            None => Err(AllocError),
        }
    }

    /// The pages a mapping for `layout` must request. For an alignment within
    /// a page, exactly the pages that cover the size: a fresh mapping is
    /// page-aligned, which satisfies any such alignment for free. For a larger
    /// alignment, the pages that cover size plus alignment: enough that some
    /// page boundary inside the mapping is aligned and the size still fits
    /// behind it.
    pub fn alloc_plan(&self, layout: NonZeroLayout) -> (r: Result<MapPlan, AllocError>)
        ensures
            r matches Ok(p) ==> {
                &&& (p.oversized <==> layout.spec_align() > self.spec_page_size())
                &&& p.pages == spec_pages_for(
                    self.spec_page_size() as int,
                    layout.spec_size() as int + if layout.spec_align() > self.spec_page_size() {
                        layout.spec_align() as int
                    } else {
                        0
                    },
                )
                &&& p.pages >= 1
            },
            r is Err <==> layout.spec_size() + (if layout.spec_align() > self.spec_page_size() {
                layout.spec_align() as int
            } else {
                0
            }) + self.spec_page_size() - 1 > usize::MAX,
    {
        proof {
            use_type_invariant(&layout);
        }
        let ps = self.page_size();
        if layout.align() <= ps {
            let pages = self.pages_for(layout.size())?;
            proof {
                lemma_pages_for(ps as int, layout.spec_size() as int);
                if pages < 1 {
                    assert(pages * ps <= 0) by (nonlinear_arith)
                        requires
                            pages <= 0,
                            ps > 0,
                    ;
                }
            }
            Ok(MapPlan { pages, oversized: false })
        } else {
            let total = match layout.size().checked_add(layout.align()) {
                Some(v) => v,
                None => {
                    return Err(AllocError);
                },
            };
            let pages = self.pages_for(total)?;
            proof {
                lemma_pages_for(ps as int, total as int);
                if pages < 1 {
                    assert(pages * ps <= 0) by (nonlinear_arith)
                        requires
                            pages <= 0,
                            ps > 0,
                    ;
                }
            }
            Ok(MapPlan { pages, oversized: true })
        }
    }

    /// Turns a fresh, page-aligned mapping made under `plan` into the block
    /// the caller asked for: the leading pages up to the first address with
    /// the requested alignment are dropped, exactly the pages covering the
    /// requested size are kept — so a later release under the same descriptor
    /// unmaps precisely the retained pages — and the rest is dropped from the
    /// back.
    pub fn finish_alloc(&self, layout: NonZeroLayout, plan: MapPlan, mapped: usize) -> (r: MapTrim)
        requires
            mapped > 0,
            mapped as int % self.spec_page_size() as int == 0,
            plan.oversized <==> layout.spec_align() > self.spec_page_size(),
            plan.pages == spec_pages_for(
                self.spec_page_size() as int,
                layout.spec_size() as int + if layout.spec_align() > self.spec_page_size() {
                    layout.spec_align() as int
                } else {
                    0
                },
            ),
            mapped + plan.pages * self.spec_page_size() <= usize::MAX,
        ensures
            r.addr as int % layout.spec_align() as int == 0,
            r.lead_pages == align_offset(mapped as int, layout.spec_align() as int) / (
            self.spec_page_size() as int),
            r.addr == mapped + r.lead_pages * self.spec_page_size(),
            r.keep_pages == spec_pages_for(self.spec_page_size() as int, layout.spec_size() as int),
            layout.spec_size() <= r.keep_pages * self.spec_page_size(),
            r.lead_pages + r.keep_pages + r.tail_pages == plan.pages,
            r.addr >= mapped,
            r.addr + r.keep_pages * self.spec_page_size() <= mapped + plan.pages
                * self.spec_page_size(),
            !plan.oversized ==> r.addr == mapped && r.lead_pages == 0 && r.tail_pages == 0,
    {
        proof {
            use_type_invariant(self);
            use_type_invariant(&layout);
            lemma_is_pow2_pos(self.page_size as int);
        }
        let ps = self.page_size();
        let size = layout.size();
        let align = layout.align();
        proof {
            lemma_pages_for(ps as int, size as int);
            crate::bump::lemma_positive_multiple(mapped as int, ps as int);
        }
        if !plan.oversized {
            // A fresh mapping is page-aligned, and a page is a multiple of any
            // smaller power-of-two alignment.
            proof {
                lemma_pow2_divides(align as int, ps as int);
                lemma_divides_transitive(mapped as int, ps as int, align as int);
                lemma_pages_for(ps as int, size as int);
                assert(spec_pages_for(ps as int, size as int) <= plan.pages);
                assert(align_offset(mapped as int, align as int) == 0);
                vstd::arithmetic::div_mod::lemma_div_of0(ps as int);
            }
            let keep = match size.checked_add(ps - 1) {
                Some(v) => v / ps,
                None => {
                    proof {
                        assert(false);
                    }
                    0
                },
            };
            MapTrim { addr: mapped, lead_pages: 0, keep_pages: keep, tail_pages: plan.pages - keep }
        } else {
            proof {
                lemma_pow2_divides(ps as int, align as int);
                lemma_align_offset(mapped as int, align as int);
                lemma_align_offset_granular(mapped as int, align as int, ps as int);
                lemma_pages_for(ps as int, size as int + align as int);
            }
            let rem = mapped % align;
            let off: usize = if rem == 0 {
                0
            } else {
                align - rem
            };
            let lead = off / ps;
            proof {
                vstd::arithmetic::div_mod::lemma_fundamental_div_mod(off as int, ps as int);
                // The lead, the kept pages, and the tail partition the
                // mapping: the leading pad and the kept pages together stay
                // within the oversized mapping.
                let keepg = spec_pages_for(ps as int, size as int);
                assert(off == lead * ps) by (nonlinear_arith)
                    requires
                        off as int % ps as int == 0,
                        off == ps * (off as int / ps as int) + off as int % ps as int,
                        lead == off as int / ps as int,
                ;
                assert(off + keepg * ps < size + align);
                assert(lead + keepg <= plan.pages) by (nonlinear_arith)
                    requires
                        ps > 0,
                        off == lead * ps,
                        off + keepg * ps < plan.pages * ps,
                ;
            }
            let addr = mapped + off;
            let keep = match size.checked_add(ps - 1) {
                Some(v) => v / ps,
                None => {
                    proof {
                        assert(false);
                    }
                    0
                },
            };
            let tail = plan.pages - lead - keep;
            MapTrim { addr, lead_pages: lead, keep_pages: keep, tail_pages: tail }
        }
    }

    /// The pages that a release under `layout` unmaps: exactly the pages that
    /// an allocation under the same descriptor retained. A failure to unmap
    /// them is fatal to the caller — it means the pointer/descriptor pair
    /// broke the deallocation contract — not a recoverable error.
    pub fn dealloc_pages(&self, layout: NonZeroLayout) -> (r: Result<usize, AllocError>)
        ensures
            r matches Ok(n) ==> n == spec_pages_for(
                self.spec_page_size() as int,
                layout.spec_size() as int,
            ),
            r is Ok <==> layout.spec_size() + self.spec_page_size() - 1 <= usize::MAX,
    {
        self.pages_for(layout.size())
    }

    /// A descriptor that could be allocated always has a page count: rounding
    /// its size up to pages stays within the address space.
    pub proof fn lemma_dealloc_pages_total(&self, layout: NonZeroLayout, pages: usize, addr: usize)
        requires
            layout.wf(),
            self.wf(),
            addr as int % self.spec_page_size() as int == 0,
            addr > 0,
            pages * self.spec_page_size() >= layout.spec_size(),
            addr + pages * self.spec_page_size() <= usize::MAX,
        ensures
            layout.spec_size() + self.spec_page_size() - 1 <= usize::MAX,
    {
        crate::bump::lemma_positive_multiple(addr as int, self.spec_page_size() as int);
    }

    /// How a mapping resizes in place: if the new size needs the same pages,
    /// keep the mapping as it is; if it needs more, extend the mapping by the
    /// difference; if fewer, unmap the trailing excess. The base address never
    /// moves.
    pub fn resize_plan(&self, old_layout: NonZeroLayout, new_layout: NonZeroLayout) -> (r: Result<
        ResizeStep,
        AllocError,
    >)
        ensures
            r matches Ok(step) ==> {
                let ps = self.spec_page_size() as int;
                let old_pages = spec_pages_for(ps, old_layout.spec_size() as int);
                let new_pages = spec_pages_for(ps, new_layout.spec_size() as int);
                match step {
                    ResizeStep::Keep => old_pages == new_pages,
                    ResizeStep::MapMore(extra) => old_pages < new_pages && extra == new_pages
                        - old_pages,
                    ResizeStep::UnmapTrailing(excess) => new_pages < old_pages && excess
                        == old_pages - new_pages,
                }
            },
            r is Ok <==> old_layout.spec_size() + self.spec_page_size() - 1 <= usize::MAX
                && new_layout.spec_size() + self.spec_page_size() - 1 <= usize::MAX,
    {
        let old_pages = self.pages_for(old_layout.size())?;
        let new_pages = self.pages_for(new_layout.size())?;
        if new_pages == old_pages {
            Ok(ResizeStep::Keep)
        } else if new_pages > old_pages {
            Ok(ResizeStep::MapMore(new_pages - old_pages))
        } else {
            Ok(ResizeStep::UnmapTrailing(old_pages - new_pages))
        }
    }
}

/// What a resize does to an existing mapping, keeping its base address.
#[derive(Debug, Clone, Copy, PartialEq, Eq, Structural)]
pub enum ResizeStep {
    /// The new size fits the pages already mapped.
    Keep,
    /// Map this many additional pages after the mapping.
    MapMore(usize),
    /// Unmap this many trailing pages.
    UnmapTrailing(usize),
}

/// Divisibility is transitive: a multiple of a multiple of `c` is a multiple
/// of `c`.
pub proof fn lemma_divides_transitive(a: int, b: int, c: int)
    requires
        b > 0,
        c > 0,
        a % b == 0,
        b % c == 0,
    ensures
        a % c == 0,
{
    vstd::arithmetic::div_mod::lemma_fundamental_div_mod(a, b);
    vstd::arithmetic::div_mod::lemma_fundamental_div_mod(b, c);
    assert(a == c * ((b / c) * (a / b))) by (nonlinear_arith)
        requires
            a == b * (a / b),
            b == c * (b / c),
    ;
    vstd::arithmetic::div_mod::lemma_mod_multiples_vanish((b / c) * (a / b), 0, c);
    vstd::arithmetic::div_mod::lemma_small_mod(0, c as nat);
}

} // verus!
