//! The size-and-alignment descriptor of a requested block, and the opaque
//! handle pairing an allocated address with the descriptor it was allocated
//! for.

use vstd::prelude::*;
use crate::align::is_power_of_two;

verus! {

/// A request descriptor: how many bytes, at which power-of-two alignment.
#[derive(Clone, Copy, Debug, PartialEq, Eq, Structural)]
pub struct Shape {
    pub size: usize,
    pub align: usize,
}

impl Shape {
    /// A usable Shape: the alignment is a power of two, and the size rounded
    /// up to that alignment still fits in the address width.
    pub open spec fn wf(&self) -> bool {
        is_power_of_two(self.align as nat) && self.size + self.align <= usize::MAX + 1
    }

    /// Builds a Shape. Violating the alignment or size conditions is a
    /// caller programming error, excluded up front rather than reported.
    pub fn new(size: usize, align: usize) -> (s: Shape)
        requires
            is_power_of_two(align as nat),
            size + align <= usize::MAX + 1,
        ensures
            s.size == size,
            s.align == align,
            s.wf(),
    {
        Shape { size, align }
    }

    /// Checked construction: rejects an alignment that is not a power of two
    /// and a size too close to the address-width limit.
    pub fn try_new(size: usize, align: usize) -> (r: Option<Shape>)
        ensures
            match r {
                Some(s) => s.size == size && s.align == align && s.wf(),
                None => !(is_power_of_two(align as nat) && size + align <= usize::MAX + 1),
            },
    {
        if crate::align::power_of_two(align) && size <= usize::MAX - align + 1 {
            Some(Shape { size, align })
        } else {
            None
        }
    }
}

/// An opaque allocation handle: an address asserted to be usable for exactly
/// `layout.size` bytes at alignment `layout.align`.
///
/// The arithmetic part of that assertion (non-null, aligned, range fits in
/// the address width) is captured by [`Tag::wf`] and enforced on
/// construction. The memory part — that the range is mapped and exclusively
/// owned — cannot be expressed over plain values; it is the single trust
/// boundary of the layer, owed by whoever builds a Tag outside a verified
/// allocation plan.
#[derive(Clone, Copy, Debug)]
pub struct Tag {
    ptr: usize,
    layout: Shape,
}

impl Tag {
    /// The address this handle stands for.
    pub closed spec fn spec_ptr(&self) -> usize {
        self.ptr
    }

    /// The Shape this handle was allocated for.
    pub closed spec fn spec_layout(&self) -> Shape {
        self.layout
    }

    /// The arithmetic validity of the handle.
    pub open spec fn wf(&self) -> bool {
        &&& is_power_of_two(self.spec_layout().align as nat)
        &&& self.spec_ptr() != 0
        &&& self.spec_ptr() % self.spec_layout().align == 0
        &&& self.spec_ptr() + self.spec_layout().size <= usize::MAX + 1
    }

    /// The privileged constructor: the caller vouches that `ptr` addresses a
    /// mapped, exclusively owned range of `layout.size` bytes.
    pub fn new(ptr: usize, layout: Shape) -> (t: Tag)
        requires
            is_power_of_two(layout.align as nat),
            ptr != 0,
            ptr % layout.align == 0,
            ptr + layout.size <= usize::MAX + 1,
        ensures
            t.spec_ptr() == ptr,
            t.spec_layout() == layout,
            t.wf(),
    {
        Tag { ptr, layout }
    }

    /// Read-only view of the address.
    pub fn ptr(&self) -> (p: usize)
        ensures
            p == self.spec_ptr(),
    {
        self.ptr
    }

    /// Read-only view of the Shape.
    pub fn layout(&self) -> (l: Shape)
        ensures
            l == self.spec_layout(),
    {
        self.layout
    }
}

} // verus!
