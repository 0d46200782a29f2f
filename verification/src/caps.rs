//! The capability contracts an allocator may support — acquiring and
//! releasing one block, bulk release, and a maintenance hint — and the
//! decorator that special-cases zero-sized requests.

use vstd::prelude::*;
use crate::align::lemma_power_of_two_pos;
use crate::shape::{Shape, Tag};
use vstd::arithmetic::div_mod::lemma_mod_self_0;

verus! {

/// The allocator could not satisfy a request.
#[derive(Clone, Copy, Debug, PartialEq, Eq, Structural)]
pub struct AllocError;

/// What every allocator owes for a tag handed out against `shape`: a valid
/// handle whose address meets the requested alignment and which covers at
/// least the requested bytes.
pub open spec fn satisfies(tag: Tag, shape: Shape) -> bool {
    &&& tag.wf()
    &&& (tag.spec_ptr() as int) % (shape.align as int) == 0
    &&& tag.spec_layout().size >= shape.size
    &&& tag.spec_layout().align >= shape.align
}

/// Acquire and release one block.
pub trait Alloc {
    /// Implementor-specific refinement of what `alloc` returns.
    spec fn alloc_post(&self, shape: Shape, r: Result<Tag, AllocError>) -> bool;

    /// Implementor-specific precondition for releasing a tag. The part no
    /// contract can state — the tag came from this very allocator and has
    /// not been released before — stays the caller's obligation.
    spec fn free_pre(&self, tag: Tag) -> bool;

    /// Requests a block matching `shape`. Never partially satisfies: on
    /// success the whole block is usable, on failure nothing is retained.
    fn acquire(&self, shape: Shape) -> (r: Result<Tag, AllocError>)
        requires
            shape.wf(),
        ensures
            r matches Ok(tag) ==> satisfies(tag, shape),
            self.alloc_post(shape, r),
    ;

    /// Releases a block this allocator produced.
    fn free(&self, tag: Tag)
        requires
            tag.wf(),
            self.free_pre(tag),
    ;
}

/// Bulk release of every block an allocator has produced and not yet
/// released; meaningful only for allocators that keep bookkeeping.
pub trait FreeAll {
    /// Releases everything at once.
    fn free_all(&self);
}

/// A maintenance hint, e.g. returning idle backing pages to the OS. It must
/// not invalidate any live tag; beyond that its effect is implementer
/// policy, and it has no caller-visible failure.
pub trait Grind {
    /// Performs the maintenance.
    fn grind(&self);
}

/// Wraps an allocator and intercepts zero-sized requests: those yield a
/// well-aligned placeholder tag and never touch the wrapped allocator or
/// the OS. Everything else is delegated unchanged.
pub struct ZeroHeap<T>(pub T);

impl<T: Alloc> Alloc for ZeroHeap<T> {
    /// A zero-sized request succeeds with the placeholder tag — the
    /// alignment itself, the smallest aligned non-null address — and keeps
    /// the requested shape; any other request answers as the wrapped
    /// allocator does.
    open spec fn alloc_post(&self, shape: Shape, r: Result<Tag, AllocError>) -> bool {
        if shape.size == 0 {
            r matches Ok(tag) && tag.spec_ptr() == shape.align && tag.spec_layout() == shape
        } else {
            self.0.alloc_post(shape, r)
        }
    }

    /// A zero-sized tag needs nothing from the wrapped allocator; any other
    /// tag is subject to the wrapped allocator's own precondition.
    open spec fn free_pre(&self, tag: Tag) -> bool {
        tag.spec_layout().size != 0 ==> self.0.free_pre(tag)
    }

    fn acquire(&self, shape: Shape) -> (r: Result<Tag, AllocError>) {
        if shape.size == 0 {
            proof {
                lemma_power_of_two_pos(shape.align as nat);
                lemma_mod_self_0(shape.align as int);
            }
            Ok(Tag::new(shape.align, shape))
        } else {
            self.0.acquire(shape)
        }
    }

    fn free(&self, tag: Tag) {
        if tag.layout().size != 0 {
            self.0.free(tag)
        }
    }
}

} // verus!
