use aegis::policy::EvictionPolicy;

#[test]
fn test_lru_eviction() {
    let policy = EvictionPolicy::LRU;

    // (block_id, last_accessed_timestamp, access_count)
    let candidates = vec![
        (0, 100, 5),
        (1, 50, 3), // Least recently used
        (2, 200, 10),
    ];

    let victim = policy.select_victim(&candidates);
    assert_eq!(victim, Some(1));
}

#[test]
fn test_lfu_eviction() {
    let policy = EvictionPolicy::LFU;

    let candidates = vec![
        (0, 100, 5),
        (1, 50, 2), // Least frequently used
        (2, 200, 10),
    ];

    let victim = policy.select_victim(&candidates);
    assert_eq!(victim, Some(1));
}

#[test]
fn test_fifo_eviction() {
    let policy = EvictionPolicy::FIFO;

    let candidates = vec![
        (0, 100, 5), // First
        (1, 50, 2),
        (2, 200, 10),
    ];

    let victim = policy.select_victim(&candidates);
    assert_eq!(victim, Some(0));
}

#[test]
fn test_no_candidates_no_victim() {
    assert_eq!(EvictionPolicy::LRU.select_victim(&[]), None);
    assert_eq!(EvictionPolicy::LFU.select_victim(&[]), None);
    assert_eq!(EvictionPolicy::FIFO.select_victim(&[]), None);
}

#[test]
fn test_ties_pick_first_candidate() {
    let candidates = vec![(7, 10, 1), (8, 10, 1), (9, 20, 1)];
    assert_eq!(EvictionPolicy::LRU.select_victim(&candidates), Some(7));
    assert_eq!(EvictionPolicy::LFU.select_victim(&candidates), Some(7));
}
