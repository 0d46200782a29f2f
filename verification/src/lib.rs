//! Page-granular virtual-memory allocation, split into a verified planning
//! layer and a thin driver that performs the actual OS mapping calls.
//!
//! The library models addresses and lengths as plain `usize` values. Every
//! arithmetic step of the allocation algorithm — alignment normalization,
//! padded-size computation, and trimming an over-sized mapping down to an
//! exactly-aligned block — is verified here. A driver built on top of this
//! crate performs the `map`/`unmap` system calls that the plans describe.

pub mod align;
pub mod shape;
pub mod caps;
pub mod mmap;

pub use caps::{Alloc, AllocError, FreeAll, Grind, ZeroHeap};
pub use mmap::{Mmap, MmapErr};
pub use shape::{Shape, Tag};
