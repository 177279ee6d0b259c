//! The bump step: the one computation every bump allocator in this crate is
//! built on. Given a region, a cursor, and a request, it either places the
//! request — rounding the cursor up to the requested alignment and advancing
//! it past the new block — or reports, exactly, that the region has no room.

use vstd::prelude::*;
use vstd::arithmetic::div_mod::{
    lemma_fundamental_div_mod, lemma_mod_division_less_than_divisor, lemma_mod_multiples_basic,
    lemma_mod_multiples_vanish, lemma_small_mod, lemma_sub_mod_noop,
};
use crate::layout::NonZeroLayout;

verus! {

/// How far `addr` must move forward to reach the next multiple of `align`.
pub open spec fn align_offset(addr: int, align: int) -> int {
    if addr % align == 0 {
        0
    } else {
        align - addr % align
    }
}

/// The alignment offset lands on a multiple of `align`, and is the smallest
/// forward move that does.
pub proof fn lemma_align_offset(addr: int, align: int)
    requires
        addr >= 0,
        align > 0,
    ensures
        0 <= align_offset(addr, align) < align,
        (addr + align_offset(addr, align)) % align == 0,
{
    let r = addr % align;
    lemma_mod_division_less_than_divisor(addr, align);
    if r != 0 {
        let q = addr / align;
        lemma_fundamental_div_mod(addr, align);
        assert(addr + align_offset(addr, align) == (q + 1) * align) by (nonlinear_arith)
            requires
                addr == align * q + r,
                align_offset(addr, align) == align - r,
        ;
        lemma_mod_multiples_basic(q + 1, align);
    }
}

/// A positive multiple of `unit` is at least `unit`.
pub proof fn lemma_positive_multiple(x: int, unit: int)
    requires
        x > 0,
        unit > 0,
        x % unit == 0,
    ensures
        x >= unit,
{
    let q = x / unit;
    lemma_fundamental_div_mod(x, unit);
    if q <= 0 {
        assert(unit * q <= 0) by (nonlinear_arith)
            requires
                unit > 0,
                q <= 0,
        ;
    }
    assert(unit * q >= unit) by (nonlinear_arith)
        requires
            unit > 0,
            q >= 1,
    ;
}

/// When both the address and the alignment are multiples of `unit`, the
/// alignment offset is too. This is what lets a page mapper trim a
/// page-granular prefix to reach an alignment larger than a page, and an arena
/// bound the padding inside a chunk whose base is word-aligned.
pub proof fn lemma_align_offset_granular(addr: int, align: int, unit: int)
    requires
        addr >= 0,
        align > 0,
        unit > 0,
        addr % unit == 0,
        align % unit == 0,
    ensures
        align_offset(addr, align) % unit == 0,
        align_offset(addr, align) <= align - unit || align_offset(addr, align) == 0,
{
    let r = addr % align;
    let q = addr / align;
    let k = align / unit;
    lemma_mod_division_less_than_divisor(addr, align);
    assert(r % unit == 0) by {
        lemma_fundamental_div_mod(addr, align);
        lemma_fundamental_div_mod(align, unit);
        assert(addr == unit * (k * q) + r) by (nonlinear_arith)
            requires
                addr == align * q + r,
                align == unit * k,
        ;
        lemma_mod_multiples_vanish(k * q, r, unit);
    }
    lemma_small_mod(0, unit as nat);
    if r != 0 {
        assert((align - r) % unit == 0) by {
            lemma_sub_mod_noop(align, r, unit);
            lemma_small_mod(0, unit as nat);
        }
        assert(r >= unit) by {
            // r is a positive multiple of unit.
            let m = r / unit;
            lemma_fundamental_div_mod(r, unit);
            assert(m >= 1) by {
                if m <= 0 {
                    assert(unit * m <= 0) by (nonlinear_arith)
                        requires
                            unit > 0,
                            m <= 0,
                    ;
                }
            }
            assert(unit * m >= unit) by (nonlinear_arith)
                requires
                    unit > 0,
                    m >= 1,
            ;
        }
    }
}

/// A successful bump step: the placed block starts at `base + offset` and the
/// cursor moves to `new_pos`.
#[derive(Debug, Clone, Copy, PartialEq, Eq, Structural)]
pub struct Bump {
    pub offset: usize,
    pub new_pos: usize,
}

/// True when a request under `layout` fits a region of `len` bytes based at
/// `base` with the cursor at `pos`. This is the exact success condition of
/// [`bump_step`]: a request beyond the remaining capacity deterministically
/// fails.
pub open spec fn bump_fits(base: usize, len: usize, pos: usize, layout: NonZeroLayout) -> bool {
    pos + align_offset(base + pos, layout.spec_align() as int) + layout.spec_size() <= len
}

/// Places one request in the region `[base, base + len)`, bumping the cursor
/// `pos`. The region's base and length are fixed; the step neither blocks nor
/// retries. Two steps chained through the cursor can never hand out
/// overlapping blocks (see [`lemma_bump_chain_disjoint`]).
pub fn bump_step(base: usize, len: usize, pos: usize, layout: NonZeroLayout) -> (r: Option<Bump>)
    requires
        base + len <= usize::MAX,
        pos <= len,
    ensures
        match r {
            Some(b) => {
                &&& b.offset == pos + align_offset(base + pos, layout.spec_align() as int)
                &&& (base + b.offset) % layout.spec_align() as int == 0
                &&& b.new_pos == b.offset + layout.spec_size()
                &&& b.new_pos <= len
                &&& pos <= b.offset
                &&& b.new_pos >= pos + layout.spec_size()
            },
            None => !bump_fits(base, len, pos, layout),
        },
        r is Some <==> bump_fits(base, len, pos, layout),
{
    proof {
        use_type_invariant(&layout);
    }
    let align = layout.align();
    let cur = base + pos;
    let rem = cur % align;
    let off: usize = if rem == 0 {
        0
    } else {
        align - rem
    };
    proof {
        lemma_align_offset(cur as int, align as int);
    }
    let start = match pos.checked_add(off) {
        Some(s) => s,
        None => {
            return None;
        },
    };
    let end = match start.checked_add(layout.size()) {
        Some(e) => e,
        None => {
            return None;
        },
    };
    if end <= len {
        Some(Bump { offset: start, new_pos: end })
    } else {
        None
    }
}

/// One link of a bump chain: a step that observed cursor `pos`, placed a block
/// of `size` bytes at offset `start`, and moved the cursor to `new_pos`.
pub struct ChainStep {
    pub pos: int,
    pub start: int,
    pub size: int,
    pub new_pos: int,
}

/// True when `steps` is a chain of successful bump steps over a region of
/// `len` bytes: each step places its block between the cursor value it
/// observed and the cursor value it installed, and each later step observes a
/// cursor at or past the one the previous step installed. A sequence of
/// successful compare-and-swap updates of an atomic cursor has exactly this
/// shape, whichever threads the steps ran on: each successful update begins at
/// the cursor value the previous successful update installed.
pub open spec fn bump_chain(steps: Seq<ChainStep>, len: int) -> bool {
    &&& forall|i: int|
        0 <= i < steps.len() ==> {
            &&& steps[i].pos <= steps[i].start
            &&& steps[i].size > 0
            &&& steps[i].start + steps[i].size <= steps[i].new_pos
            &&& steps[i].new_pos <= len
        }
    &&& forall|i: int| 0 < i < steps.len() ==> steps[i - 1].new_pos <= steps[i].pos
}

/// Within one region, the blocks placed by any chain of successful bump steps
/// are pairwise disjoint and lie inside the region. Under concurrent callers
/// this is the disjointness guarantee: the atomic cursor orders the successful
/// steps into a chain, so no two callers ever receive overlapping byte ranges.
pub proof fn lemma_bump_chain_disjoint(steps: Seq<ChainStep>, len: int)
    requires
        bump_chain(steps, len),
    ensures
        forall|i: int, j: int|
            0 <= i < j < steps.len() ==> ranges_disjoint_chain(steps[i], steps[j]),
        forall|i: int| 0 <= i < steps.len() ==> steps[i].start + steps[i].size <= len,
    decreases steps.len(),
{
    if steps.len() > 1 {
        let last = steps.len() - 1;
        assert(bump_chain(steps.drop_last(), len));
        lemma_bump_chain_disjoint(steps.drop_last(), len);
        assert forall|i: int| 0 <= i < last implies steps[i].new_pos <= steps[last].pos by {
            lemma_chain_monotone(steps, len, i, last);
        }
        assert forall|i: int, j: int|
            0 <= i < j < steps.len() implies ranges_disjoint_chain(steps[i], steps[j]) by {
            if j < steps.len() - 1 {
                assert(ranges_disjoint_chain(steps.drop_last()[i], steps.drop_last()[j]));
            }
        }
    }
}

/// Disjointness of the blocks of two chain steps.
pub open spec fn ranges_disjoint_chain(a: ChainStep, b: ChainStep) -> bool {
    a.start + a.size <= b.start || b.start + b.size <= a.start
}

/// The installed cursor values of a chain never decrease.
pub proof fn lemma_chain_monotone(steps: Seq<ChainStep>, len: int, i: int, j: int)
    requires
        bump_chain(steps, len),
        0 <= i < j < steps.len(),
    ensures
        steps[i].new_pos <= steps[j].pos,
    decreases j - i,
{
    if i + 1 < j {
        lemma_chain_monotone(steps, len, i + 1, j);
    }
}

} // verus!
