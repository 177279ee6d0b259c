//! The operating-system virtual-memory backing: whole pages, straight from
//! the platform's page mapper.
//!
//! On its own this allocation style has terrible performance, especially for
//! small allocations; it is meant as the ultimate source of bytes for arenas
//! and other systems built above it. The types here compute everything the
//! mapper's caller must get right — page counts, the over-alignment trim, the
//! pages a release gives back — with proofs; the mapping calls themselves are
//! the platform's.

pub mod linear;
pub mod unix;

use vstd::prelude::*;
use vstd::arithmetic::power2::is_pow2;
use crate::layout::{AllocError, NonZeroLayout};
use crate::os::unix::{MapPlan, MapTrim, Mmap, ResizeStep, spec_pages_for, supports_deallocation};

verus! {

/// The current platform's virtual-memory interface, with its page size
/// validated once. Not every platform can release pages (a linear memory only
/// grows): deallocation is a capability handed out separately, by
/// [`Os::deallocator`].
#[derive(Debug, Clone, Copy, PartialEq, Eq, Structural)]
pub struct Os {
    mapper: Mmap,
}

impl Os {
    /// An interface to a platform whose reported page size is `page_size`;
    /// rejects a page size that is not a power of two.
    pub fn new(page_size: usize) -> (r: Option<Self>)
        ensures
            r matches Some(os) ==> os.spec_page_size() == page_size,
            r is Some <==> is_pow2(page_size as int),
    {
        match Mmap::new(page_size) {
            Some(mapper) => Some(Os { mapper }),
            None => None,
        }
    }

    pub closed spec fn spec_page_size(&self) -> usize {
        self.mapper.spec_page_size()
    }

    /// The platform's page mapper.
    pub fn mapper(&self) -> (r: &Mmap)
        ensures
            r.spec_page_size() == self.spec_page_size(),
    {
        &self.mapper
    }

    #[verifier::when_used_as_spec(spec_page_size)]
    pub fn page_size(&self) -> (r: usize)
        ensures
            r == self.spec_page_size(),
            r > 0,
    {
        self.mapper.page_size()
    }

    /// The deallocation capability, if this platform can unmap pages.
    pub fn deallocator(&self) -> (r: Option<OsDeallocator>)
        ensures
            r matches Some(d) ==> d.spec_page_size() == self.spec_page_size(),
            r is Some,
    {
        if supports_deallocation() {
            Some(OsDeallocator { mapper: self.mapper })
        } else {
            None
        }
    }

    /// The mapping request for `layout`; see [`Mmap::alloc_plan`].
    pub fn alloc_plan(&self, layout: NonZeroLayout) -> (r: Result<MapPlan, AllocError>)
        ensures
            r matches Ok(p) ==> {
                &&& (p.oversized <==> layout.spec_align() > self.spec_page_size())
                &&& p.pages == spec_pages_for(
                    self.spec_page_size() as int,
                    layout.spec_size() as int + if layout.spec_align() > self.spec_page_size() {
                        layout.spec_align() as int
                    } else {
                        0
                    },
                )
                &&& p.pages >= 1
            },
            r is Err <==> layout.spec_size() + (if layout.spec_align() > self.spec_page_size() {
                layout.spec_align() as int
            } else {
                0
            }) + self.spec_page_size() - 1 > usize::MAX,
    {
        self.mapper.alloc_plan(layout)
    }
}

/// The capability to release pages back to the operating system; exists only
/// on platforms where [`supports_deallocation`] holds.
#[derive(Debug, Clone, Copy, PartialEq, Eq, Structural)]
pub struct OsDeallocator {
    mapper: Mmap,
}

impl OsDeallocator {
    pub closed spec fn spec_page_size(&self) -> usize {
        self.mapper.spec_page_size()
    }

    /// The pages a release under `layout` unmaps; see [`Mmap::dealloc_pages`].
    pub fn dealloc_pages(&self, layout: NonZeroLayout) -> (r: Result<usize, AllocError>)
        ensures
            r matches Ok(n) ==> n == spec_pages_for(
                self.spec_page_size() as int,
                layout.spec_size() as int,
            ),
            r is Ok <==> layout.spec_size() + self.spec_page_size() - 1 <= usize::MAX,
    {
        self.mapper.dealloc_pages(layout)
    }
}

} // verus!
