use aegis::allocator::{AllocatorError, KVCacheAllocator};

#[test]
fn test_allocator_init() {
    let allocator = KVCacheAllocator::new(1024 * 1024, 16 * 1024).unwrap();
    let stats = allocator.stats();
    assert_eq!(stats.total_blocks, 64);
    assert_eq!(stats.allocated_blocks, 0);
    assert_eq!(stats.free_blocks, 64);
}

#[test]
fn test_allocate_blocks() {
    let mut allocator = KVCacheAllocator::new(1024 * 1024, 16 * 1024).unwrap();

    let blocks = allocator.allocate(10).unwrap();
    assert_eq!(blocks.len(), 10);

    let stats = allocator.stats();
    assert_eq!(stats.allocated_blocks, 10);
    assert_eq!(stats.free_blocks, 54);
}

#[test]
fn test_deallocate_blocks() {
    let mut allocator = KVCacheAllocator::new(1024 * 1024, 16 * 1024).unwrap();

    let blocks = allocator.allocate(10).unwrap();
    allocator.deallocate(&blocks).unwrap();

    let stats = allocator.stats();
    assert_eq!(stats.allocated_blocks, 0);
    assert_eq!(stats.free_blocks, 64);
}

#[test]
fn test_insufficient_blocks() {
    let mut allocator = KVCacheAllocator::new(1024 * 1024, 16 * 1024).unwrap();

    let result = allocator.allocate(100);
    assert!(result.is_err());
}

#[test]
fn test_cache_smaller_than_a_block_is_refused() {
    let result = KVCacheAllocator::new(1024, 16 * 1024);
    assert!(matches!(result, Err(AllocatorError::CacheTooSmall)));
}

#[test]
fn test_allocation_takes_front_of_free_list_in_order() {
    let mut allocator = KVCacheAllocator::new(64, 16).unwrap();
    assert_eq!(allocator.allocate(2).unwrap(), vec![0, 1]);
    assert_eq!(allocator.allocate(1).unwrap(), vec![2]);
    allocator.deallocate(&[0]).unwrap();
    // The released block goes to the back of the free list.
    assert_eq!(allocator.allocate(2).unwrap(), vec![3, 0]);
}

#[test]
fn test_insufficient_reports_request_and_availability() {
    let mut allocator = KVCacheAllocator::new(64, 16).unwrap();
    let err = allocator.allocate(5).unwrap_err();
    assert_eq!(err, AllocatorError::Insufficient { requested: 5, available: 4 });
    assert_eq!(err.message(), "Insufficient free blocks: 5 requested, 4 available");
}

#[test]
fn test_stats_bytes() {
    let mut allocator = KVCacheAllocator::new(64, 16).unwrap();
    allocator.allocate(3).unwrap();
    let stats = allocator.stats();
    assert_eq!(stats.total_allocated_bytes, 48);
    assert_eq!(stats.total_free_bytes, 16);
}

#[test]
fn test_unknown_block_is_skipped_on_release() {
    let mut allocator = KVCacheAllocator::new(64, 16).unwrap();
    allocator.deallocate(&[99]).unwrap();
    assert_eq!(allocator.stats().free_blocks, 4);
}

#[test]
fn test_mark_owner() {
    let mut allocator = KVCacheAllocator::new(64, 16).unwrap();
    assert!(allocator.mark_owner(1, "req-1".to_string()).is_ok());
    assert_eq!(allocator.mark_owner(9, "req-1".to_string()), Err(AllocatorError::BlockNotFound));
}

#[test]
fn test_allocate_then_release_keeps_free_count() {
    let mut allocator = KVCacheAllocator::new(1024, 16).unwrap();
    let before = allocator.stats().free_blocks;
    let blocks = allocator.allocate(7).unwrap();
    allocator.deallocate(&blocks).unwrap();
    assert_eq!(allocator.stats().free_blocks, before);
}

#[test]
fn test_allocations_hand_out_distinct_free_blocks() {
    let mut allocator = KVCacheAllocator::new(1024 * 1024, 16 * 1024).unwrap();
    let a = allocator.allocate(10).unwrap();
    allocator.deallocate(&a[2..5]).unwrap();
    let b = allocator.allocate(54).unwrap();
    let mut all: Vec<usize> = a.iter().filter(|x| !a[2..5].contains(x)).copied().chain(b.iter().copied()).collect();
    all.sort();
    all.dedup();
    assert_eq!(all.len(), 61);
    let stats = allocator.stats();
    assert_eq!(stats.allocated_blocks, 61);
    assert_eq!(stats.free_blocks, 3);
}
