use my_allocator::align_up;
use my_allocator::allocate_example;
use my_allocator::BumpAllocator;

#[test]
fn align_up_exact_values() {
    assert_eq!(align_up(0x1000, 4), 0x1000);
    assert_eq!(align_up(0x1003, 4), 0x1004);
    assert_eq!(align_up(0, 1), 0);
    assert_eq!(align_up(5, 1), 5);
    assert_eq!(align_up(7, 8), 8);
    assert_eq!(align_up(8, 8), 8);
    assert_eq!(align_up(9, 8), 16);
    assert_eq!(align_up(1, 1024), 1024);
}

#[test]
fn align_up_properties_sampled() {
    for addr in 0..200usize {
        for shift in 0..7u32 {
            let align = 1usize << shift;
            let r = align_up(addr, align);
            assert_eq!(r % align, 0);
            assert!(r >= addr);
            assert!(r < addr + align);
        }
    }
}

#[test]
fn scenario_three_requests() {
    let mut b = BumpAllocator::new(0x1000, 16);
    assert_eq!(b.allocate(3, 4), Some(0x1000));
    assert_eq!(b.allocate(5, 4), Some(0x1004));
    assert_eq!(b.allocate(10, 1), None);
}

#[test]
fn returned_blocks_are_monotonic_and_disjoint() {
    let mut b = BumpAllocator::new(0, 1024);
    let sizes = [1usize, 7, 16, 3, 0, 32];
    let aligns = [1usize, 2, 8, 4, 16, 32];
    let mut prev_end = 0usize;
    for i in 0..sizes.len() {
        let a = b.allocate(sizes[i], aligns[i]).unwrap();
        // each base lies at or past the end of every earlier block, so the
        // intervals are pairwise disjoint
        assert!(a >= prev_end);
        assert_eq!(a % aligns[i], 0);
        prev_end = a + sizes[i];
    }
}

#[test]
fn blocks_lie_inside_the_region() {
    let heap_start = 0x8000usize;
    let heap_size = 128usize;
    let mut b = BumpAllocator::new(heap_start, heap_size);
    let sizes = [5usize, 40, 1, 9];
    let aligns = [4usize, 8, 1, 16];
    for i in 0..sizes.len() {
        let a = b.allocate(sizes[i], aligns[i]).unwrap();
        assert!(a >= heap_start);
        assert!(a + sizes[i] <= heap_start + heap_size);
    }
}

#[test]
fn exhausted_request_keeps_failing() {
    let mut b = BumpAllocator::new(64, 8);
    assert_eq!(b.allocate(9, 1), None);
    // the failed attempt left the state untouched, so the identical request
    // fails again
    assert_eq!(b.allocate(9, 1), None);
    // and a request that does fit is still served from the original cursor
    assert_eq!(b.allocate(8, 1), Some(64));
}

#[test]
fn deallocate_is_a_no_op() {
    let mut b = BumpAllocator::new(0x2000, 64);
    let a1 = b.allocate(10, 4).unwrap();
    b.deallocate(a1, 10);
    b.deallocate(a1, 10);
    // nothing was reclaimed: the next block still comes after the first
    let a2 = b.allocate(10, 1).unwrap();
    assert_eq!(a2, a1 + 10);
}

#[test]
fn deallocate_leaves_subsequent_allocate_unchanged() {
    let mut with_dealloc = BumpAllocator::new(0, 32);
    let mut without_dealloc = BumpAllocator::new(0, 32);
    assert_eq!(with_dealloc.allocate(5, 1), without_dealloc.allocate(5, 1));
    with_dealloc.deallocate(0, 5);
    assert_eq!(with_dealloc.allocate(5, 1), without_dealloc.allocate(5, 1));
}

#[test]
fn zero_size_allocation_lands_on_the_aligned_cursor() {
    let mut b = BumpAllocator::new(0x100, 16);
    assert_eq!(b.allocate(3, 1), Some(0x100));
    assert_eq!(b.allocate(0, 8), Some(0x108));
    // the cursor advanced to the aligned start, not past it
    assert_eq!(b.allocate(1, 1), Some(0x108));
}

#[test]
fn exact_fit_consumes_the_region() {
    let mut b = BumpAllocator::new(0x1000, 16);
    assert_eq!(b.allocate(16, 1), Some(0x1000));
    assert_eq!(b.allocate(1, 1), None);
    // a zero-length block still fits at the very end
    assert_eq!(b.allocate(0, 1), Some(0x1010));
}

#[test]
fn largest_region() {
    let mut b = BumpAllocator::new(0, usize::MAX - 8);
    assert_eq!(b.allocate(usize::MAX - 9, 1), Some(0));
    assert_eq!(b.allocate(1, 1), Some(usize::MAX - 9));
    assert_eq!(b.allocate(0, 1), Some(usize::MAX - 8));
    assert_eq!(b.allocate(1, 1), None);
}

#[test]
fn allocate_example_runs() {
    allocate_example();
}
