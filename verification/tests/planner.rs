use pagealloc::align::{power_of_two, round_to_align};
use pagealloc::mmap::{AllocNext, Mmap, MmapErr, Region};
use pagealloc::shape::Shape;

#[test]
fn power_of_two_examples() {
    assert!(power_of_two(1));
    assert!(power_of_two(2));
    assert!(power_of_two(4096));
    assert!(power_of_two(1usize << 63));
    assert!(!power_of_two(0));
    assert!(!power_of_two(3));
    assert!(!power_of_two(6));
    assert!(!power_of_two(4095));
}

#[test]
fn round_to_align_examples() {
    assert_eq!(round_to_align(5, 8), (8, 3));
    assert_eq!(round_to_align(16, 8), (16, 0));
    assert_eq!(round_to_align(4097, 4096), (8192, 4095));
    assert_eq!(round_to_align(0, 4096), (0, 0));
}

#[test]
fn shape_try_new_rejects_bad_alignment() {
    assert!(Shape::try_new(10, 3).is_none());
    assert!(Shape::try_new(10, 0).is_none());
    let s = Shape::try_new(10, 4).unwrap();
    assert_eq!(s.size, 10);
    assert_eq!(s.align, 4);
}

#[test]
fn shape_try_new_rejects_overflowing_size() {
    assert!(Shape::try_new(usize::MAX, 4096).is_none());
    assert!(Shape::try_new(usize::MAX - 4095, 4096).is_some());
}

#[test]
fn os_page_size_is_a_power_of_two() {
    let m = Mmap::new().expect("the OS page size is a power of two");
    assert!(power_of_two(m.pagesize()));
    assert!(m.pagesize() >= 1);
}

#[test]
fn normalize_small_alignment_rounds_to_page() {
    let m = Mmap::with_pagesize(4096);
    let n = m.normalize(Shape { size: 100, align: 8 }).unwrap();
    assert_eq!(n.align, 4096);
    assert_eq!(n.size, 4096);
}

#[test]
fn normalize_keeps_page_multiples() {
    let m = Mmap::with_pagesize(4096);
    let n = m.normalize(Shape { size: 8192, align: 4096 }).unwrap();
    assert_eq!(n.align, 4096);
    assert_eq!(n.size, 8192);
}

#[test]
fn normalize_rejects_non_power_of_two_alignment() {
    let m = Mmap::with_pagesize(4096);
    assert_eq!(m.normalize(Shape { size: 100, align: 3 }), Err(MmapErr::Layout));
}

#[test]
fn normalize_size_overflow_is_rejected_as_invalid_shape() {
    // A size whose rounding exceeds the address width makes the request
    // itself unusable: a typed rejection before any OS call, not a panic.
    let m = Mmap::with_pagesize(4096);
    assert_eq!(
        m.normalize(Shape { size: usize::MAX - 10, align: 4096 }),
        Err(MmapErr::Layout)
    );
}

#[test]
fn fast_path_scenario_page_aligned_request() {
    // Page size 4096, request {size: 4096, align: 4096}: the first mapping
    // is always good enough — one map call, and free releases exactly the
    // mapped range.
    let m = Mmap::with_pagesize(4096);
    let n = m.normalize(Shape { size: 4096, align: 4096 }).unwrap();
    assert_eq!(n, Shape { size: 4096, align: 4096 });
    match m.alloc_mapped(n, 65536) {
        AllocNext::Done(tag) => {
            assert_eq!(tag.ptr(), 65536);
            assert_eq!(tag.layout(), n);
            let released = m.free(tag);
            assert_eq!(released, Region { addr: 65536, size: 4096 });
        }
        _ => panic!("a page-aligned address must take the fast path"),
    }
}

#[test]
fn slow_path_scenario_large_alignment() {
    // Page size 4096, request {size: 4096, align: 1 MiB}: normalization
    // pads the size to the alignment; a page-aligned but unaligned first
    // mapping is released whole, and the padded retry is trimmed to an
    // exactly-aligned block.
    let m = Mmap::with_pagesize(4096);
    let n = m.normalize(Shape { size: 4096, align: 1 << 20 }).unwrap();
    assert_eq!(n, Shape { size: 1 << 20, align: 1 << 20 });
    match m.alloc_mapped(n, 69632) {
        AllocNext::Retry { release, padded_len } => {
            // The failed fast-path mapping is released in full.
            assert_eq!(release, Region { addr: 69632, size: 1 << 20 });
            // Padded request: n.size + (n.align - pagesize).
            assert_eq!(padded_len, (1 << 20) + (1 << 20) - 4096);
            let plan = m.trim(196608, padded_len, n).unwrap();
            // Leading slack runs from the mapping start to the boundary.
            assert_eq!(plan.head, Region { addr: 196608, size: 851968 });
            // The retained block sits exactly on the 1 MiB boundary.
            assert_eq!(plan.tag.ptr(), 1 << 20);
            assert_eq!(plan.tag.ptr() % (1 << 20), 0);
            assert_eq!(plan.tag.layout(), n);
            // Trailing slack runs from the block end to the mapping end.
            assert_eq!(plan.tail, Region { addr: 2097152, size: 192512 });
            // Total slack is the padded request minus the retained size.
            assert_eq!(
                plan.head.size + plan.tail.size,
                padded_len - n.size
            );
            // No released byte overlaps the retained block.
            assert!(plan.head.addr + plan.head.size <= plan.tag.ptr());
            assert!(plan.tag.ptr() + n.size <= plan.tail.addr);
            // Freeing the tag releases exactly the retained range.
            let released = m.free(plan.tag);
            assert_eq!(released, Region { addr: 1 << 20, size: 1 << 20 });
        }
        _ => panic!("an unaligned address must take the slow path"),
    }
}

#[test]
fn trim_of_already_aligned_mapping_has_no_leading_slack() {
    let m = Mmap::with_pagesize(4096);
    let n = m.normalize(Shape { size: 4096, align: 1 << 20 }).unwrap();
    let padded = (1 << 20) + (1 << 20) - 4096;
    let plan = m.trim(1 << 20, padded, n).unwrap();
    assert_eq!(plan.head, Region { addr: 1 << 20, size: 0 });
    assert_eq!(plan.tag.ptr(), 1 << 20);
    assert_eq!(plan.tail, Region { addr: 2097152, size: (1 << 20) - 4096 });
}

#[test]
fn zero_size_is_not_special_cased_by_the_page_allocator() {
    // Interception of zero-sized requests is the decorator's business; the
    // page allocator itself treats them like any other request.
    let m = Mmap::with_pagesize(4096);
    let n = m.normalize(Shape { size: 0, align: 4096 }).unwrap();
    assert_eq!(n, Shape { size: 0, align: 4096 });
    match m.alloc_mapped(n, 65536) {
        AllocNext::Done(tag) => {
            assert_eq!(tag.ptr(), 65536);
            assert_eq!(tag.layout().size, 0);
        }
        _ => panic!("an aligned address completes even a zero-sized request"),
    }
}

#[test]
fn trim_with_maximal_leading_slack_has_no_trailing_slack() {
    // The padded request is sized for the worst case: a mapping one page
    // past an alignment boundary uses all of its slack in front.
    let m = Mmap::with_pagesize(4096);
    let n = m.normalize(Shape { size: 4096, align: 1 << 20 }).unwrap();
    let padded = (1 << 20) + (1 << 20) - 4096;
    let plan = m.trim(4096, padded, n).unwrap();
    assert_eq!(plan.head, Region { addr: 4096, size: (1 << 20) - 4096 });
    assert_eq!(plan.tag.ptr(), 1 << 20);
    assert_eq!(plan.tail.size, 0);
}

#[test]
fn trim_at_the_top_of_the_address_space_reports_overflow() {
    // A zero-sized normalized request in a mapping that ends exactly at the
    // top of the address space: the block fits, but its aligned address
    // would sit one past the last representable address — an arithmetic
    // failure distinct from "does not fit".
    let m = Mmap::with_pagesize(4096);
    let n = m.normalize(Shape { size: 0, align: 1 << 20 }).unwrap();
    assert_eq!(n, Shape { size: 0, align: 1 << 20 });
    assert!(matches!(
        m.trim(usize::MAX - 4095, 4096, n),
        Err(MmapErr::Overflow)
    ));
}

#[test]
fn trim_reports_a_mapping_too_small_to_align() {
    let m = Mmap::with_pagesize(4096);
    let n = m.normalize(Shape { size: 4096, align: 1 << 20 }).unwrap();
    // A bare n.size-byte mapping at an unaligned address cannot be trimmed.
    assert!(matches!(m.trim(69632, 1 << 20, n), Err(MmapErr::NoAlign)));
}

#[test]
fn padded_size_at_the_address_width_limit_still_fits() {
    // The largest normalized request: after normalization the padded sum
    // never exceeds the address width, so even the extreme alignment takes
    // the slow path with an exact padded length rather than failing.
    let m = Mmap::with_pagesize(4096);
    let n = m.normalize(Shape { size: 1, align: 1usize << 63 }).unwrap();
    assert_eq!(n, Shape { size: 1 << 63, align: 1 << 63 });
    match m.alloc_mapped(n, 4096) {
        AllocNext::Retry { release, padded_len } => {
            assert_eq!(release, Region { addr: 4096, size: 1 << 63 });
            assert_eq!(padded_len, usize::MAX - 4095);
        }
        _ => panic!("an unaligned address must take the slow path"),
    }
}

#[test]
fn alloc_slow_padded_size_formula() {
    let m = Mmap::with_pagesize(4096);
    let n = m.normalize(Shape { size: 4096, align: 65536 }).unwrap();
    assert_eq!(m.alloc_slow(n), Ok(65536 + 65536 - 4096));
}
