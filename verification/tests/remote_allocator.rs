use aegis::messages::{AllocateResponse, HealthResponse, StateHashResponse, STATUS_SERVING};
use aegis::remote_allocator::{status_from_code, HealthStatus, RemoteAllocator, RemoteError};

fn create_allocator() -> RemoteAllocator {
    RemoteAllocator::new("node-1".to_string(), "localhost:50051".to_string())
}

#[test]
fn test_create() {
    let allocator = create_allocator();
    assert_eq!(allocator.node_id(), "node-1");
    assert_eq!(allocator.node_addr(), "localhost:50051");
    assert!(!allocator.is_connected());
}

#[test]
fn test_update_capacity() {
    let mut allocator = create_allocator();
    allocator.update_capacity(1000, 500);
    let capacity = allocator.get_known_capacity();
    assert!(capacity.is_some());
    let cap = capacity.unwrap();
    assert_eq!(cap.total_blocks, 1000);
    assert_eq!(cap.free_blocks, 500);
}

#[test]
fn test_allocate_with_capacity() {
    let mut allocator = create_allocator();
    allocator.update_capacity(1000, 500);
    let result = allocator.allocate(100, None);
    assert!(result.is_ok());
    assert_eq!(allocator.health_status(), HealthStatus::Healthy);
}

#[test]
fn test_allocate_without_capacity() {
    let mut allocator = create_allocator();
    let result = allocator.allocate(100, None);
    assert!(result.is_err());
}

#[test]
fn test_record_success() {
    let mut allocator = create_allocator();
    allocator.update_capacity(1000, 500);
    allocator.allocate(100, None).ok();
    assert!(allocator.last_success_age_secs().is_some());
    assert_eq!(allocator.failure_count(), 0);
    assert_eq!(allocator.health_status(), HealthStatus::Healthy);
}

#[test]
fn test_record_failure() {
    let mut allocator = create_allocator();
    allocator.allocate(100, None).ok();
    assert!(allocator.failure_count() > 0);
    assert_eq!(allocator.health_status(), HealthStatus::Degraded);
}

#[test]
fn test_failure_degradation() {
    let mut allocator = create_allocator();
    for _ in 0..3 {
        allocator.record_failure();
    }
    assert_eq!(allocator.health_status(), HealthStatus::Degraded);
    allocator.record_failure();
    assert_eq!(allocator.health_status(), HealthStatus::Dead);
}

#[test]
fn test_reset_failures() {
    let mut allocator = create_allocator();
    allocator.record_failure();
    allocator.record_failure();
    assert!(allocator.failure_count() > 0);
    allocator.reset_failures();
    assert_eq!(allocator.failure_count(), 0);
    assert_eq!(allocator.health_status(), HealthStatus::Healthy);
}

#[test]
fn remote_allocator_test_deallocate() {
    let mut allocator = create_allocator();
    let result = allocator.deallocate(vec![1, 2, 3], None);
    assert!(result.is_ok());
}

#[test]
fn remote_allocator_test_health_check() {
    let mut allocator = create_allocator();
    let status = allocator.health_check(None);
    assert!(status.is_ok());
}

#[test]
fn test_capacity_staleness() {
    let mut allocator = create_allocator();
    allocator.update_capacity(1000, 500);
    let cap = allocator.get_known_capacity().unwrap();
    assert!(!cap.is_stale());
}

#[test]
fn test_with_caller_id() {
    let alloc = RemoteAllocator::new("n".into(), "localhost:9".into()).with_caller_id("my-node");
    assert_eq!(alloc.caller_node_id(), "my-node");
}

#[test]
fn test_default_caller_and_health() {
    let alloc = create_allocator();
    assert_eq!(alloc.caller_node_id(), "local");
    assert_eq!(alloc.health_status(), HealthStatus::Unknown);
    assert_eq!(HealthStatus::default(), HealthStatus::Unknown);
}

#[test]
fn test_endpoint_url() {
    assert_eq!(create_allocator().endpoint_url(), "http://localhost:50051");
    let a = RemoteAllocator::new("n".into(), "https://example:1".into());
    assert_eq!(a.endpoint_url(), "https://example:1");
    let b = RemoteAllocator::new("n".into(), "http://example:2".into());
    assert_eq!(b.endpoint_url(), "http://example:2");
}

#[test]
fn test_stub_allocation_gives_first_block_ids() {
    let mut allocator = create_allocator();
    allocator.update_capacity(10, 3);
    assert_eq!(allocator.allocate(3, None).unwrap(), vec![0, 1, 2]);
    assert!(matches!(allocator.allocate(4, None), Err(RemoteError::InsufficientCapacity)));
}

#[test]
fn test_allocate_with_reply() {
    let mut allocator = create_allocator();
    let reply = AllocateResponse { block_ids: vec![7, 9], free_blocks: 5, total_blocks: 20, ok: true, error: String::new() };
    assert_eq!(allocator.allocate(2, Some(Ok(reply))).unwrap(), vec![7, 9]);
    let cap = allocator.get_known_capacity().unwrap();
    assert_eq!((cap.total_blocks, cap.free_blocks), (20, 5));

    let refusal = AllocateResponse { block_ids: vec![], free_blocks: 0, total_blocks: 0, ok: false, error: "full".to_string() };
    match allocator.allocate(2, Some(Ok(refusal))) {
        Err(RemoteError::Rejected { message }) => assert_eq!(message, "full"),
        other => panic!("unexpected {:?}", other),
    }
    match allocator.allocate(2, Some(Err("down".to_string()))) {
        Err(RemoteError::Transport { message }) => assert_eq!(message, "down"),
        other => panic!("unexpected {:?}", other),
    }
    assert_eq!(allocator.failure_count(), 2);
    assert_eq!(allocator.health_status(), HealthStatus::Degraded);
}

#[test]
fn test_health_check_with_reply() {
    let mut allocator = create_allocator();
    let reply = HealthResponse { status: 3, node_id: "node-1".to_string(), free_blocks: 1, total_blocks: 2, uptime_secs: 9 };
    assert_eq!(allocator.health_check(Some(Ok(reply))).unwrap(), HealthStatus::Degraded);
    // The successful call leaves the node healthy.
    assert_eq!(allocator.health_status(), HealthStatus::Healthy);
    assert_eq!(status_from_code(STATUS_SERVING), HealthStatus::Healthy);
    assert_eq!(status_from_code(2), HealthStatus::Dead);
    assert_eq!(status_from_code(42), HealthStatus::Unknown);
}

#[test]
fn test_stub_health_follows_failures() {
    let mut allocator = create_allocator();
    assert_eq!(allocator.health_check(None).unwrap(), HealthStatus::Healthy);
    allocator.record_failure();
    assert_eq!(allocator.health_check(None).unwrap(), HealthStatus::Degraded);
    for _ in 0..3 {
        allocator.record_failure();
    }
    assert_eq!(allocator.health_check(None).unwrap(), HealthStatus::Dead);
}

#[test]
fn test_state_hash() {
    let mut allocator = create_allocator();
    assert_eq!(&allocator.get_state_hash(None).unwrap(), blake3::hash(b"remote-state").as_bytes());
    let good = StateHashResponse { state_hash: vec![1; 32], epoch: 1, num_owned_blocks: 0 };
    assert_eq!(allocator.get_state_hash(Some(Ok(good))).unwrap(), [1u8; 32]);
    let bad = StateHashResponse { state_hash: vec![1; 5], epoch: 1, num_owned_blocks: 0 };
    assert!(matches!(allocator.get_state_hash(Some(Ok(bad))), Err(RemoteError::InvalidHashLength { len: 5 })));
}

#[test]
fn test_requests() {
    let allocator = create_allocator().with_caller_id("me");
    let q = allocator.allocate_request(7);
    assert_eq!(q.num_blocks, 7);
    assert_eq!(q.caller_node_id, "me");
    assert_eq!(q.request_id.len(), 36);
    let d = allocator.deallocate_request(&vec![1, 2]);
    assert_eq!(d.block_ids, vec![1u64, 2]);
}

#[test]
fn test_connect_and_disconnect_marks() {
    let mut allocator = create_allocator();
    allocator.mark_connected();
    assert!(allocator.is_connected());
    assert_eq!(allocator.health_status(), HealthStatus::Healthy);
    allocator.disconnect();
    assert!(!allocator.is_connected());
}

#[test]
fn test_grants_allocation_follows_reply_and_capacity() {
    let mut a = create_allocator();
    assert!(!a.grants_allocation(1, &None));
    a.update_capacity(10, 4);
    assert!(a.grants_allocation(4, &None));
    assert!(!a.grants_allocation(5, &None));
    assert!(!a.grants_allocation(1, &Some(Err("down".to_string()))));
}
