//! The allocation descriptor: a size/alignment pair validated once, at
//! construction, so that no allocator needs to branch on a zero size or a
//! broken alignment.

use vstd::prelude::*;
use vstd::arithmetic::div_mod::lemma_mod_multiples_basic;
use vstd::arithmetic::power::{lemma_pow_adds, lemma_pow_increases_converse, lemma_pow_positive};
use vstd::arithmetic::power2::{is_pow2, is_pow2_equiv};

verus! {

/// An allocation failed. The condition is deliberately opaque: callers cannot
/// act differently on "out of address space" versus "backing exhausted", so no
/// finer taxonomy is exposed.
#[derive(Debug, Clone, Copy, PartialEq, Eq)]
pub struct AllocError;

/// A power of two is positive.
pub proof fn lemma_is_pow2_pos(n: int)
    requires
        is_pow2(n),
    ensures
        n > 0,
{
    reveal(is_pow2);
}

/// Eight is a power of two: the alignment of a chunk footer.
pub proof fn lemma_is_pow2_8()
    ensures
        is_pow2(8),
{
    reveal(is_pow2);
    assert(is_pow2(1));
    assert(is_pow2(2));
    assert(is_pow2(4));
}

/// The smaller of two powers of two divides the larger.
pub proof fn lemma_pow2_divides(a: int, b: int)
    requires
        is_pow2(a),
        is_pow2(b),
        a <= b,
    ensures
        b % a == 0,
{
    is_pow2_equiv(a);
    is_pow2_equiv(b);
    let i = choose|i: nat| vstd::arithmetic::power::pow(2, i) == a;
    let j = choose|j: nat| vstd::arithmetic::power::pow(2, j) == b;
    lemma_is_pow2_pos(a);
    lemma_is_pow2_pos(b);
    lemma_pow_increases_converse(2, i, j);
    lemma_pow_adds(2, i, (j - i) as nat);
    lemma_pow_positive(2, (j - i) as nat);
    lemma_mod_multiples_basic(vstd::arithmetic::power::pow(2, (j - i) as nat), a);
}

/// Decides whether `n` is a power of two, by repeated halving.
pub fn is_power_of_two(n: usize) -> (r: bool)
    ensures
        r <==> is_pow2(n as int),
{
    if n == 0 {
        proof {
            reveal(is_pow2);
        }
        return false;
    }
    let mut m: usize = n;
    while m % 2 == 0
        invariant
            m >= 1,
            is_pow2(n as int) <==> is_pow2(m as int),
        decreases m,
    {
        proof {
            reveal(is_pow2);
        }
        m = m / 2;
    }
    proof {
        reveal(is_pow2);
    }
    m == 1
}

/// A layout whose size is never zero and whose alignment is a power of two.
///
/// The distinction between zero-sized layouts and any other layout is made
/// because it makes little sense for an allocator to concern itself with
/// zero-sized allocations: that is managed by the user of an allocator, once,
/// at the front door. Every allocator method in this crate accepts only this
/// validated type.
#[derive(Debug, Clone, Copy, PartialEq, Eq, Structural)]
pub struct NonZeroLayout {
    size: usize,
    align: usize,
}

impl NonZeroLayout {
    /// What it means for a size/alignment pair to describe a valid request.
    pub open spec fn layout_valid(size: usize, align: usize) -> bool {
        size > 0 && is_pow2(align as int)
    }

    pub closed spec fn spec_size(&self) -> usize {
        self.size
    }

    pub closed spec fn spec_align(&self) -> usize {
        self.align
    }

    pub open spec fn wf(&self) -> bool {
        Self::layout_valid(self.spec_size(), self.spec_align())
    }

    #[verifier::type_invariant]
    pub(crate) open spec fn type_inv(self) -> bool {
        self.wf()
    }

    /// Validates a raw size/alignment pair. This is the only way to build a
    /// descriptor: a zero size or a non-power-of-two alignment is rejected
    /// here and nowhere else.
    pub fn new(size: usize, align: usize) -> (r: Option<Self>)
        ensures
            match r {
                Some(l) => l.spec_size() == size && l.spec_align() == align,
                None => !Self::layout_valid(size, align),
            },
            r is Some <==> Self::layout_valid(size, align),
    {
        if size > 0 && is_power_of_two(align) {
            Some(NonZeroLayout { size, align })
        } else {
            None
        }
    }

    #[verifier::when_used_as_spec(spec_size)]
    pub fn size(&self) -> (r: usize)
        ensures
            r == self.spec_size(),
            r > 0,
    {
        proof {
            use_type_invariant(self);
        }
        self.size
    }

    #[verifier::when_used_as_spec(spec_align)]
    pub fn align(&self) -> (r: usize)
        ensures
            r == self.spec_align(),
            is_pow2(r as int),
            r > 0,
    {
        proof {
            use_type_invariant(self);
            lemma_is_pow2_pos(self.align as int);
        }
        self.align
    }

    /// The raw size/alignment pair.
    pub fn get(&self) -> (r: (usize, usize))
        ensures
            r.0 == self.spec_size(),
            r.1 == self.spec_align(),
    {
        (self.size, self.align)
    }
}

} // verus!
