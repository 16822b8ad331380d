use aegis::allocator::KVCacheAllocator;
use aegis::distributed::{DistributedError, DistributedKVCache};
use aegis::messages::{AllocateRequest, AllocateResponse, DeallocateRequest, HealthRequest, StateHashRequest};
use aegis::node_selector::{NodeCapacity, SelectionError};
use aegis::remote_allocator::RemoteError;
use aegis::scheduling_service::SchedulingServiceImpl;

fn create_test_cache() -> DistributedKVCache {
    let allocator = KVCacheAllocator::new(1024 * 1024, 16 * 1024).unwrap();
    DistributedKVCache::new("test-node".to_string(), allocator)
}

/// Digest the cache should report for its block map.
fn expected_digest(entries: &[(usize, &str)]) -> [u8; 32] {
    let mut sorted = entries.to_vec();
    sorted.sort();
    let mut hasher = blake3::Hasher::new();
    for (b, n) in sorted {
        hasher.update(format!("{}:{}", b, n).as_bytes());
    }
    *hasher.finalize().as_bytes()
}

#[test]
fn test_allocate_local() {
    let mut cache = create_test_cache();
    let blocks = cache.try_allocate_local("req-1", 10).unwrap();

    assert_eq!(blocks.len(), 10);
    assert!(blocks.iter().all(|b| b.is_local));
    assert!(blocks.iter().all(|b| b.owner_node == "test-node"));
}

#[test]
fn test_allocate_deallocate() {
    let mut cache = create_test_cache();
    let blocks = cache.try_allocate_local("req-1", 5).unwrap();
    let block_ids: Vec<_> = blocks.iter().map(|b| b.block_id).collect();

    cache.deallocate(block_ids).unwrap();

    assert_eq!(cache.metrics().total_deallocations, 1);
}

#[test]
fn test_owner_tracking() {
    let mut cache = create_test_cache();
    let blocks = cache.try_allocate_local("req-1", 3).unwrap();

    for block in blocks {
        let owner = cache.owner_of(block.block_id).unwrap();
        assert_eq!(owner, "test-node");
    }
}

#[test]
fn distributed_test_state_hash_consistency() {
    let mut cache = create_test_cache();

    let hash1 = cache.get_state_hash();

    cache.try_allocate_local("req-1", 5).unwrap();
    let hash2 = cache.get_state_hash();

    assert_ne!(hash1, hash2);
}

#[test]
fn distributed_test_register_peer() {
    let mut cache = create_test_cache();
    assert!(cache.register_peer("node-2".to_string(), "localhost:50052".to_string(), 1024).is_ok());

    let nodes = cache.node_selector().get_nodes();
    assert!(nodes.contains(&"node-2".to_string()));
}

#[test]
fn test_allocate_with_peers() {
    let mut cache = create_test_cache();
    cache.register_peer("node-2".to_string(), "localhost:50052".to_string(), 1024).unwrap();
    cache
        .update_peer_capacity("node-2", NodeCapacity { total_blocks: 1024, free_blocks: 500, allocated_blocks: 524 })
        .ok();

    // The local allocator has 64 blocks: 100 must go to the peer.
    assert!(cache.try_allocate_local("req-1", 100).is_err());
    let ranked = vec!["node-2".to_string()];
    let selected = cache.select_remote(100, &ranked);
    assert_eq!(selected, Ok("node-2".to_string()));
    // No channel is open and the client knows no capacity yet: the peer refuses.
    let result = cache.complete_remote_allocation("req-1", selected, 100, None);
    assert!(matches!(result, Err(DistributedError::Remote(RemoteError::InsufficientCapacity))));
    assert_eq!(cache.metrics().failed_allocations, 1);
}

#[test]
fn test_remote_allocation_records_peer_ownership() {
    let mut cache = create_test_cache();
    cache.register_peer("node-2".to_string(), "localhost:50052".to_string(), 1024).unwrap();
    let reply = AllocateResponse { block_ids: vec![500, 501], free_blocks: 10, total_blocks: 20, ok: true, error: String::new() };
    let handles = cache
        .complete_remote_allocation("req-1", Ok("node-2".to_string()), 2, Some(Ok(reply)))
        .unwrap();
    assert_eq!(handles.iter().map(|h| h.block_id).collect::<Vec<_>>(), vec![500, 501]);
    assert!(handles.iter().all(|h| !h.is_local && h.owner_node == "node-2"));
    assert_eq!(cache.owner_of(500).unwrap(), "node-2");
    assert_eq!(cache.metrics().cross_node_allocations, 1);
    assert_eq!(cache.metrics().total_allocations, 1);
    assert_eq!(cache.get_state_hash(), expected_digest(&[(500, "node-2"), (501, "node-2")]));
}

#[test]
fn test_no_node_and_unknown_peer_count_as_failures() {
    let mut cache = create_test_cache();
    let r = cache.complete_remote_allocation("req-1", Err(SelectionError::NoNodes), 1, None);
    assert!(matches!(r, Err(DistributedError::NoNode(SelectionError::NoNodes))));
    let r = cache.complete_remote_allocation("req-1", Ok("ghost".to_string()), 1, None);
    assert!(matches!(r, Err(DistributedError::UnknownPeer)));
    assert_eq!(cache.metrics().failed_allocations, 2);
}

#[test]
fn test_state_hash_is_digest_of_sorted_ownership() {
    let mut cache = create_test_cache();
    assert_eq!(&cache.get_state_hash(), blake3::hash(b"empty").as_bytes());
    cache.try_allocate_local("req-1", 12).unwrap();
    let entries: Vec<(usize, &str)> = (0..12).map(|b| (b, "test-node")).collect();
    assert_eq!(cache.get_state_hash(), expected_digest(&entries));
    cache.deallocate((0..12).collect()).unwrap();
    assert_eq!(cache.get_state_hash(), expected_digest(&[]));
}

#[test]
fn test_same_ownership_same_hash_whatever_the_order() {
    let mut a = create_test_cache();
    let mut b = create_test_cache();
    a.try_allocate_local("r", 4).unwrap();
    b.try_allocate_local("r", 2).unwrap();
    b.try_allocate_local("r", 2).unwrap();
    assert_eq!(a.get_state_hash(), b.get_state_hash());
}

#[test]
fn test_deallocate_skips_foreign_and_unknown_blocks() {
    let mut cache = create_test_cache();
    cache.register_peer("node-2".to_string(), "h:1".to_string(), 10).unwrap();
    let reply = AllocateResponse { block_ids: vec![900], free_blocks: 1, total_blocks: 2, ok: true, error: String::new() };
    cache.complete_remote_allocation("r", Ok("node-2".to_string()), 1, Some(Ok(reply))).unwrap();
    cache.try_allocate_local("r", 2).unwrap();
    cache.deallocate(vec![900, 0, 12345]).unwrap();
    assert_eq!(cache.owner_of(900).unwrap(), "node-2");
    assert!(cache.owner_of(0).is_err());
    assert_eq!(cache.owner_of(1).unwrap(), "test-node");
    assert_eq!(cache.local_stats().free_blocks, 63);
}

#[test]
fn test_deallocate_twice_listed_block_stops_release() {
    let mut cache = create_test_cache();
    cache.try_allocate_local("r", 2).unwrap();
    let r = cache.deallocate(vec![0, 0]);
    assert!(matches!(r, Err(DistributedError::Ownership(_))));
    assert_eq!(cache.metrics().total_deallocations, 0);
}

#[test]
fn test_health_check_and_counts() {
    let mut cache = create_test_cache();
    assert!(cache.health_check().is_ok());
    cache.try_allocate_local("r", 3).unwrap();
    assert_eq!(cache.num_owned_blocks(), 3);
    assert_eq!(cache.node_id(), "test-node");
}

#[test]
fn test_peer_connection_and_requests() {
    let mut cache = create_test_cache();
    assert_eq!(cache.peer_connected("node-2"), None);
    cache.register_peer("node-2".to_string(), "h:1".to_string(), 10).unwrap();
    assert_eq!(cache.peer_connected("node-2"), Some(false));
    cache.mark_peer_connected("node-2").unwrap();
    assert_eq!(cache.peer_connected("node-2"), Some(true));
    let q = cache.remote_allocate_request("node-2", 4).unwrap();
    assert_eq!(q.num_blocks, 4);
    assert_eq!(q.caller_node_id, "local");
    assert!(cache.remote_allocate_request("node-3", 4).is_none());
}

fn make_service() -> SchedulingServiceImpl {
    let alloc = KVCacheAllocator::new(1024 * 1024, 16 * 1024).unwrap();
    let cache = DistributedKVCache::new("test-srv".to_string(), alloc);
    SchedulingServiceImpl::new("test-srv", cache)
}

#[test]
fn test_allocate_then_state_hash() {
    let mut svc = make_service();

    let resp = svc.allocate_global(AllocateRequest {
        request_id: "r1".into(),
        num_blocks: 4,
        caller_node_id: "client".into(),
    });

    assert!(resp.ok, "allocate_global should succeed: {:?}", resp.error);
    assert_eq!(resp.block_ids.len(), 4);

    let h = svc.get_state_hash(StateHashRequest { caller_node_id: "client".into() });
    assert_eq!(h.state_hash.len(), 32);
    assert!(h.epoch >= 1);
}

#[test]
fn test_health_check_serving() {
    let svc = make_service();
    let resp = svc.health_check(HealthRequest { caller_node_id: "client".into() });
    assert_eq!(resp.status, aegis::messages::STATUS_SERVING);
    assert_eq!(resp.node_id, "test-srv");
    assert!(resp.total_blocks > 0);
}

#[test]
fn test_deallocate_unknown_block_is_idempotent() {
    let mut svc = make_service();
    let resp = svc.deallocate_global(DeallocateRequest { block_ids: vec![9999], caller_node_id: "client".into() });
    assert!(resp.ok);
}

#[test]
fn test_service_refusal_carries_reason() {
    let mut svc = make_service();
    let resp = svc.allocate_global(AllocateRequest { request_id: String::new(), num_blocks: 65, caller_node_id: "c".into() });
    assert!(!resp.ok);
    assert_eq!(resp.error, "Insufficient free blocks: 65 requested, 64 available");
    assert_eq!(svc.epoch(), 0);
    let ok = svc.allocate_global(AllocateRequest { request_id: "x".into(), num_blocks: 2, caller_node_id: "c".into() });
    assert_eq!(ok.block_ids, vec![0, 1]);
    assert_eq!(ok.free_blocks, 62);
    assert_eq!(ok.total_blocks, 64);
    assert_eq!(svc.epoch(), 1);
}

#[test]
fn test_peer_failure_count_follows_remote_calls() {
    let mut cache = create_test_cache();
    assert_eq!(cache.peer_failure_count("node-2"), None);
    cache.register_peer("node-2".to_string(), "localhost:50052".to_string(), 1024).unwrap();
    assert_eq!(cache.peer_failure_count("node-2"), Some(0));

    let refused = cache.complete_remote_allocation("req-1", Ok("node-2".to_string()), 4, Some(Err("unreachable".to_string())));
    assert!(refused.is_err());
    assert_eq!(cache.peer_failure_count("node-2"), Some(1));

    let reply = AllocateResponse { block_ids: vec![7], free_blocks: 3, total_blocks: 4, ok: true, error: String::new() };
    cache.complete_remote_allocation("req-2", Ok("node-2".to_string()), 1, Some(Ok(reply))).unwrap();
    assert_eq!(cache.peer_failure_count("node-2"), Some(0));
}

#[test]
fn test_service_state_hash_is_32_bytes() {
    let service = make_service();
    let resp = service.get_state_hash(StateHashRequest { caller_node_id: "peer".to_string() });
    assert_eq!(resp.state_hash.len(), 32);
    assert_eq!(resp.state_hash.as_slice(), blake3::hash(b"empty").as_bytes());
}
