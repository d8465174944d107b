use bump_allocator::{AllocError, EarlyAllocator};

const PAGE: usize = 0x1000;

fn region(start: usize, size: usize) -> EarlyAllocator<PAGE> {
    let mut a = EarlyAllocator::<PAGE>::new();
    a.init(start, size);
    a
}

#[test]
fn new_allocator_is_inert() {
    let a = EarlyAllocator::<PAGE>::new();
    assert_eq!(a.total_bytes(), 0);
    assert_eq!(a.used_bytes(), 0);
    assert_eq!(a.available_bytes(), 0);
    assert_eq!(a.total_pages(), 0);
    assert_eq!(a.used_pages(), 0);
    assert_eq!(a.available_pages(), 0);
    assert_eq!(EarlyAllocator::<PAGE>::page_size(), PAGE);
}

#[test]
fn init_sets_region() {
    let a = region(0x1000, 0x4000);
    assert_eq!(a.total_bytes(), 0x4000);
    assert_eq!(a.used_bytes(), 0);
    assert_eq!(a.available_bytes(), 0x4000);
    assert_eq!(a.total_pages(), 4);
    assert_eq!(a.used_pages(), 0);
    assert_eq!(a.available_pages(), 4);
}

#[test]
fn two_page_region_scenario() {
    let mut a = region(0x1000, 0x2000);
    assert_eq!(a.alloc_bytes(0x10, 8), Ok(0x1000));
    assert_eq!(a.used_bytes(), 0x10);
    assert_eq!(a.alloc_pages(1, PAGE), Ok(0x2000));
    assert_eq!(a.used_pages(), 1);
    assert_eq!(a.alloc_pages(1, PAGE), Err(AllocError::NoMemory));
    assert_eq!(a.used_pages(), 1);
    assert_eq!(a.used_bytes(), 0x10);
    assert_eq!(a.dealloc_bytes(0x1000, 0x10), Ok(()));
    assert_eq!(a.used_bytes(), 0);
    assert_eq!(a.alloc_pages(1, PAGE), Ok(0x1000));
    assert_eq!(a.used_pages(), 2);
    assert_eq!(a.available_pages(), 0);
}

#[test]
fn byte_allocations_are_contiguous() {
    let mut a = region(0x8000, 0x1000);
    assert_eq!(a.alloc_bytes(0x10, 8), Ok(0x8000));
    assert_eq!(a.alloc_bytes(0x20, 8), Ok(0x8010));
    assert_eq!(a.alloc_bytes(0, 8), Ok(0x8030));
    assert_eq!(a.alloc_bytes(3, 1), Ok(0x8030));
    assert_eq!(a.used_bytes(), 0x33);
    assert_eq!(a.available_bytes(), 0x1000 - 0x33);
    assert_eq!(a.total_bytes(), 0x1000);
}

#[test]
fn byte_allocation_fills_region_exactly() {
    let mut a = region(0x1000, 0x100);
    assert_eq!(a.alloc_bytes(0x100, 1), Ok(0x1000));
    assert_eq!(a.available_bytes(), 0);
    assert_eq!(a.alloc_bytes(1, 1), Err(AllocError::NoMemory));
    assert_eq!(a.alloc_bytes(0, 1), Ok(0x1100));
}

#[test]
fn bytes_reclaimed_only_when_all_freed() {
    let mut a = region(0x1000, 0x4000);
    assert_eq!(a.alloc_bytes(0x10, 8), Ok(0x1000));
    assert_eq!(a.alloc_bytes(0x30, 8), Ok(0x1010));
    assert_eq!(a.alloc_bytes(0x08, 8), Ok(0x1040));
    // released out of order: nothing comes back until the last one
    assert_eq!(a.dealloc_bytes(0x1010, 0x30), Ok(()));
    assert_eq!(a.used_bytes(), 0x48);
    assert_eq!(a.dealloc_bytes(0x1000, 0x10), Ok(()));
    assert_eq!(a.used_bytes(), 0x48);
    assert_eq!(a.dealloc_bytes(0x1040, 0x08), Ok(()));
    assert_eq!(a.used_bytes(), 0);
    assert_eq!(a.alloc_bytes(0x10, 8), Ok(0x1000));
}

#[test]
fn pages_reclaimed_only_when_all_freed() {
    let mut a = region(0x1000, 0x8000);
    assert_eq!(a.alloc_pages(1, PAGE), Ok(0x8000));
    assert_eq!(a.alloc_pages(2, PAGE), Ok(0x6000));
    assert_eq!(a.used_pages(), 3);
    assert_eq!(a.dealloc_pages(0x8000, 1), Ok(()));
    assert_eq!(a.used_pages(), 3);
    assert_eq!(a.alloc_pages(1, PAGE), Ok(0x5000));
    assert_eq!(a.dealloc_pages(0x6000, 2), Ok(()));
    assert_eq!(a.used_pages(), 4);
    assert_eq!(a.dealloc_pages(0x5000, 1), Ok(()));
    assert_eq!(a.used_pages(), 0);
    assert_eq!(a.available_pages(), 8);
    assert_eq!(a.alloc_pages(1, PAGE), Ok(0x8000));
}

#[test]
fn pages_exhausted_at_region_size() {
    let mut a = region(0x1000, 0x4000);
    for i in 0..4usize {
        assert_eq!(a.alloc_pages(1, PAGE), Ok(0x4000 - i * PAGE));
    }
    assert_eq!(a.used_pages(), 4);
    assert_eq!(a.alloc_pages(1, PAGE), Err(AllocError::NoMemory));
    assert_eq!(a.used_pages(), 4);
    assert_eq!(a.available_pages(), 0);
    assert_eq!(a.total_bytes(), 0);
}

#[test]
fn pages_exhausted_with_partial_page_left() {
    let mut a = region(0x1000, 0x2800);
    assert_eq!(a.alloc_pages(2, PAGE), Ok(0x1800));
    assert_eq!(a.used_pages(), 2);
    assert_eq!(a.alloc_pages(1, PAGE), Err(AllocError::NoMemory));
    assert_eq!(a.available_bytes(), 0x800);
    assert_eq!(a.alloc_bytes(0x800, 1), Ok(0x1000));
}

#[test]
fn oversized_page_request_fails() {
    let mut a = region(0x1000, 0x4000);
    assert_eq!(a.alloc_pages(5, PAGE), Err(AllocError::NoMemory));
    assert_eq!(a.alloc_pages(usize::MAX, PAGE), Err(AllocError::NoMemory));
    assert_eq!(a.used_pages(), 0);
    assert_eq!(a.available_pages(), 4);
}

#[test]
fn page_cursor_gates_byte_allocations() {
    let mut a = region(0x1000, 0x4000);
    assert_eq!(a.alloc_pages(2, PAGE), Ok(0x3000));
    assert_eq!(a.total_bytes(), 0x2000);
    // fits in the whole region, not below the page cursor
    assert_eq!(a.alloc_bytes(0x3000, 8), Err(AllocError::NoMemory));
    assert_eq!(a.used_bytes(), 0);
    assert_eq!(a.available_bytes(), 0x2000);
    assert_eq!(a.alloc_bytes(0x2000, 8), Ok(0x1000));
    assert_eq!(a.alloc_bytes(1, 1), Err(AllocError::NoMemory));
}

#[test]
fn byte_cursor_gates_page_allocations() {
    let mut a = region(0x1000, 0x4000);
    assert_eq!(a.alloc_bytes(0x1001, 8), Ok(0x1000));
    assert_eq!(a.total_pages(), 2);
    assert_eq!(a.available_pages(), 2);
    assert_eq!(a.alloc_pages(3, PAGE), Err(AllocError::NoMemory));
    assert_eq!(a.alloc_pages(2, PAGE), Ok(0x3000));
    assert_eq!(a.available_pages(), 0);
    assert_eq!(a.available_bytes(), 0xfff);
}

#[test]
fn queries_repeat_without_change() {
    let mut a = region(0x1000, 0x4000);
    a.alloc_bytes(0x123, 8).unwrap();
    a.alloc_pages(1, PAGE).unwrap();
    assert_eq!(a.total_bytes(), a.total_bytes());
    assert_eq!(a.used_bytes(), a.used_bytes());
    assert_eq!(a.available_bytes(), a.available_bytes());
    assert_eq!(a.total_pages(), a.total_pages());
    assert_eq!(a.used_pages(), a.used_pages());
    assert_eq!(a.available_pages(), a.available_pages());
    assert_eq!(a.total_bytes(), 0x3000);
    assert_eq!(a.used_bytes(), 0x123);
    assert_eq!(a.available_bytes(), 0x3000 - 0x123);
    assert_eq!(a.total_pages(), (0x5000 - 0x1123) / PAGE);
    assert_eq!(a.used_pages(), 1);
    assert_eq!(a.available_pages(), (0x4000 - 0x1123) / PAGE);
}

#[test]
fn cursors_stay_ordered_through_mixed_requests() {
    let mut a = region(0x1000, 0x6000);
    let total = 0x6000;
    let steps: [(bool, usize); 8] = [
        (true, 0x500),
        (false, 2),
        (true, 0x2000),
        (false, 3),
        (true, 0x800),
        (false, 1),
        (true, 0x10),
        (false, 1),
    ];
    for (bytes, n) in steps {
        let _ = if bytes { a.alloc_bytes(n, 8).map(|_| ()) } else { a.alloc_pages(n, PAGE).map(|_| ()) };
        assert!(a.used_bytes() + a.available_bytes() == a.total_bytes());
        assert!(a.total_bytes() <= total);
        assert!(a.used_bytes() <= a.total_bytes());
        assert!(a.used_pages() * PAGE <= total - a.total_bytes());
    }
}

#[test]
fn byte_release_with_nothing_live_is_refused() {
    let mut a = region(0x1000, 0x1000);
    assert_eq!(a.dealloc_bytes(0x1000, 8), Err(AllocError::NotAllocated));
    assert_eq!(a.alloc_bytes(8, 8), Ok(0x1000));
    assert_eq!(a.dealloc_bytes(0x1000, 8), Ok(()));
    assert_eq!(a.dealloc_bytes(0x1000, 8), Err(AllocError::NotAllocated));
    assert_eq!(a.used_bytes(), 0);
}

#[test]
fn page_over_release_is_refused() {
    let mut a = region(0x1000, 0x4000);
    assert_eq!(a.alloc_pages(2, PAGE), Ok(0x3000));
    assert_eq!(a.dealloc_pages(0x3000, 3), Err(AllocError::NotAllocated));
    assert_eq!(a.used_pages(), 2);
    assert_eq!(a.dealloc_pages(0x3000, 2), Ok(()));
    assert_eq!(a.dealloc_pages(0x3000, 1), Err(AllocError::NotAllocated));
    assert_eq!(a.used_pages(), 0);
}

#[test]
fn region_cannot_grow() {
    let mut a = region(0x1000, 0x1000);
    assert_eq!(a.add_memory(0x9000, 0x1000), Err(AllocError::Unsupported));
    assert_eq!(a.total_bytes(), 0x1000);
    assert_eq!(a.alloc_bytes(0x1001, 1), Err(AllocError::NoMemory));
}

#[test]
fn region_reaching_top_of_address_space() {
    let mut a = EarlyAllocator::<PAGE>::new();
    a.init(usize::MAX - 0x2fff, 0x2fff);
    assert_eq!(a.total_pages(), 2);
    assert_eq!(a.alloc_pages(2, PAGE), Ok(usize::MAX - 0x2000));
    assert_eq!(a.alloc_bytes(0xfff, 1), Ok(usize::MAX - 0x2fff));
    assert_eq!(a.alloc_bytes(1, 1), Err(AllocError::NoMemory));
}
