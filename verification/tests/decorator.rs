use pagealloc::caps::{Alloc, AllocError, ZeroHeap};
use pagealloc::shape::{Shape, Tag};
use std::cell::Cell;

/// An instrumented allocator that counts how often it is consulted and
/// hands out a canned, well-aligned tag.
struct CountingHeap {
    acquires: Cell<usize>,
    frees: Cell<usize>,
}

impl CountingHeap {
    fn new() -> CountingHeap {
        CountingHeap { acquires: Cell::new(0), frees: Cell::new(0) }
    }
}

impl Alloc for CountingHeap {
    // The contract items of the trait are ghost; an unverified implementor
    // only has to provide placeholder bodies, which are never run.
    fn alloc_post(&self, _: Shape, _: Result<Tag, AllocError>) -> bool {
        true
    }

    fn free_pre(&self, _: Tag) -> bool {
        true
    }

    fn acquire(&self, shape: Shape) -> Result<Tag, AllocError> {
        self.acquires.set(self.acquires.get() + 1);
        Ok(Tag::new(1 << 30, shape))
    }

    fn free(&self, _tag: Tag) {
        self.frees.set(self.frees.get() + 1);
    }
}

#[test]
fn zero_sized_acquire_never_consults_the_wrapped_allocator() {
    let heap = ZeroHeap(CountingHeap::new());
    let shape = Shape { size: 0, align: 64 };
    let tag = heap.acquire(shape).unwrap();
    // The placeholder tag satisfies the requested alignment and keeps the
    // requested shape.
    assert_eq!(tag.ptr(), 64);
    assert_eq!(tag.ptr() % 64, 0);
    assert_eq!(tag.layout(), shape);
    assert_eq!(heap.0.acquires.get(), 0);
}

#[test]
fn zero_sized_free_never_consults_the_wrapped_allocator() {
    let heap = ZeroHeap(CountingHeap::new());
    let tag = heap.acquire(Shape { size: 0, align: 4096 }).unwrap();
    heap.free(tag);
    assert_eq!(heap.0.acquires.get(), 0);
    assert_eq!(heap.0.frees.get(), 0);
}

#[test]
fn non_zero_requests_are_delegated_unchanged() {
    let heap = ZeroHeap(CountingHeap::new());
    let shape = Shape { size: 4096, align: 4096 };
    let tag = heap.acquire(shape).unwrap();
    assert_eq!(heap.0.acquires.get(), 1);
    assert_eq!(tag.ptr(), 1 << 30);
    assert_eq!(tag.layout(), shape);
    heap.free(tag);
    assert_eq!(heap.0.frees.get(), 1);
}

#[test]
fn zero_sized_tags_for_various_alignments_are_aligned() {
    let heap = ZeroHeap(CountingHeap::new());
    let mut align: usize = 1;
    while align <= 1 << 20 {
        let tag = heap.acquire(Shape { size: 0, align }).unwrap();
        assert_eq!(tag.ptr() % align, 0);
        assert_ne!(tag.ptr(), 0);
        align *= 2;
    }
    assert_eq!(heap.0.acquires.get(), 0);
}
