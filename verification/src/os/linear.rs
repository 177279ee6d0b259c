//! Planning for a linear-memory target: an address space that only grows, in
//! large fixed-size pages, and never releases anything.

use vstd::prelude::*;
use crate::layout::{AllocError, NonZeroLayout};
use crate::os::unix::spec_pages_for;

verus! {

/// The page size of a linear memory: 64 KiB.
pub const LINEAR_PAGE_SIZE: usize = 65536;

/// A linear memory: `pages` pages are mapped, at addresses `0` up to
/// `pages * LINEAR_PAGE_SIZE`. The memory can only grow, by whole pages
/// appended at the end; there is no way to release a page, so this backing
/// offers no deallocation capability at all.
#[derive(Debug, Default, Clone, Copy, PartialEq, Eq, Structural)]
pub struct Memory {
    pub pages: usize,
}

impl Memory {
    /// The fixed page size of a linear memory.
    pub fn page_size(&self) -> (r: usize)
        ensures
            r == LINEAR_PAGE_SIZE,
    {
        LINEAR_PAGE_SIZE
    }

    /// The bytes currently mapped.
    pub fn size(&self) -> (r: Option<usize>)
        ensures
            r matches Some(n) ==> n == self.pages * LINEAR_PAGE_SIZE,
            r is Some <==> self.pages * LINEAR_PAGE_SIZE <= usize::MAX,
    {
        self.pages.checked_mul(LINEAR_PAGE_SIZE)
    }

    /// How many pages a growth step must append so that a block under
    /// `layout` fits in the added region. The added region starts at the old
    /// end of memory, which is page-aligned, so any alignment up to a page is
    /// free; a larger alignment has no home here.
    pub fn grow_plan(&self, layout: NonZeroLayout) -> (r: Result<usize, AllocError>)
        ensures
            r matches Ok(n) ==> n == spec_pages_for(
                LINEAR_PAGE_SIZE as int,
                layout.spec_size() as int,
            ) && layout.spec_align() <= LINEAR_PAGE_SIZE && n >= 1,
            r is Err <==> layout.spec_align() > LINEAR_PAGE_SIZE || layout.spec_size()
                + LINEAR_PAGE_SIZE - 1 > usize::MAX,
    {
        proof {
            use_type_invariant(&layout);
        }
        if layout.align() > LINEAR_PAGE_SIZE {
            return Err(AllocError);
        }
        match layout.size().checked_add(LINEAR_PAGE_SIZE - 1) {
            Some(v) => {
                let n = v / LINEAR_PAGE_SIZE;
                proof {
                    crate::os::unix::lemma_pages_for(
                        LINEAR_PAGE_SIZE as int,
                        layout.spec_size() as int,
                    );
                    if n < 1 {
                        assert(n * LINEAR_PAGE_SIZE <= 0) by (nonlinear_arith)
                            requires
                                n <= 0,
                        ;
                    }
                }
                Ok(n)
            },
            None => Err(AllocError),
        }
    }
}

/// A linear memory cannot release pages.
pub fn supports_deallocation() -> (r: bool)
    ensures
        !r,
{
    false
}

} // verus!
