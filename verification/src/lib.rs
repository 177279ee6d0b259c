//! A composable memory-allocation substrate, verified.
//!
//! The crate models an address space with plain integers: an allocation is a
//! pair of an address and a validated layout, and every allocator proves that
//! the blocks it hands out are aligned, in bounds, and disjoint from every
//! other live block it has issued. The pieces are
//!
//! - a validated allocation descriptor ([`NonZeroLayout`]),
//! - capability traits ([`Allocator`], [`Deallocator`]) with the disjointness
//!   and alignment obligations stated as contracts,
//! - fixed-capacity bump allocators over one memory region,
//! - a chunked, growable arena that acquires chunks from a backing allocator
//!   and releases them all on teardown, and
//! - a virtual-memory planner that computes page counts and the
//!   over-alignment trim for an operating system's page mapper.
//!
//! The crate computes and verifies every address. Performing the actual page
//! mapping, and placing bytes at the computed addresses, is the caller's side
//! of the bargain.

pub mod allocation;
pub mod arena;
pub mod as_std;
pub mod bump;
pub mod defaults;
pub mod fixed_slice;
pub mod global;
pub mod layout;
pub mod leak;
pub mod never;
pub mod once;
pub mod os;
pub mod region;
pub mod slice;
pub mod traced;
pub mod traits;

pub use allocation::Allocation;
pub use arena::Arena;
pub use as_std::AsStd;
pub use defaults::DefaultGrow;
pub use fixed_slice::FixedSlice;
pub use global::WrapAsGlobal;
pub use layout::AllocError;
pub use layout::NonZeroLayout;
pub use leak::Leak;
pub use never::Never;
pub use once::Once;
pub use slice::Slice;
pub use slice::SyncSlice;
pub use traced::Traced;
pub use traits::Allocator;
pub use traits::Deallocator;
pub use traits::Footprint;
