use aegis::replicated_log::{LogEntry, LogOperation};
use aegis::state_machine::{to_hex, OperationResult, StateMachine};

fn alloc_op(request_id: &str, num_blocks: usize) -> LogOperation {
    LogOperation::Allocate { request_id: request_id.to_string(), num_blocks }
}

#[test]
fn test_state_machine_creation() {
    let sm = StateMachine::new();
    assert_eq!(sm.applied_count(), 0);
    assert_eq!(sm.allocations().len(), 0);
    assert_eq!(sm.peers().len(), 0);
}

#[test]
fn test_apply_allocation() {
    let mut sm = StateMachine::new();
    let entry = LogEntry::new(1, 1, alloc_op("req-1", 100));

    let result = sm.apply_entry(&entry).unwrap();
    assert_eq!(result, OperationResult::Success);
    assert_eq!(sm.applied_count(), 1);
    assert_eq!(sm.allocations().len(), 1);

    let a = sm.get_allocation("req-1").unwrap();
    assert_eq!(a.request_id, "req-1");
    assert_eq!(a.num_blocks, 100);
}

#[test]
fn test_idempotent_allocation() {
    let mut sm = StateMachine::new();
    let entry = LogEntry::new(1, 1, alloc_op("req-1", 100));

    let result1 = sm.apply_entry(&entry).unwrap();
    assert_eq!(result1, OperationResult::Success);

    let result2 = sm.apply_entry(&entry).unwrap();
    assert_eq!(result2, OperationResult::AlreadyApplied);

    assert_eq!(sm.applied_count(), 1);
    assert_eq!(sm.allocations().len(), 1);
}

#[test]
fn test_apply_deallocation() {
    let mut sm = StateMachine::new();

    let alloc_entry = LogEntry::new(1, 1, alloc_op("req-1", 100));
    sm.apply_entry(&alloc_entry).ok();

    assert_eq!(sm.allocations().len(), 1);

    let dealloc_op = LogOperation::Deallocate { request_id: "req-1".to_string(), blocks: vec![0, 1, 2] };
    let dealloc_entry = LogEntry::new(2, 1, dealloc_op);
    let result = sm.apply_entry(&dealloc_entry).unwrap();

    assert_eq!(result, OperationResult::Success);
    assert_eq!(sm.allocations().len(), 0);
    assert_eq!(sm.applied_count(), 2);
}

#[test]
fn state_machine_test_register_peer() {
    let mut sm = StateMachine::new();
    let op = LogOperation::RegisterPeer {
        peer_id: "node-2".to_string(),
        peer_addr: "localhost:50052".to_string(),
        capacity: 1024,
    };
    let entry = LogEntry::new(1, 1, op);

    let result = sm.apply_entry(&entry).unwrap();
    assert_eq!(result, OperationResult::Success);
    assert_eq!(sm.peers().len(), 1);

    let peer = sm.get_peer("node-2").unwrap();
    assert_eq!(peer.peer_id, "node-2");
    assert_eq!(peer.peer_addr, "localhost:50052");
    assert_eq!(peer.capacity, 1024);
}

#[test]
fn state_machine_test_multiple_operations() {
    let mut sm = StateMachine::new();

    for i in 1..=3 {
        let entry = LogEntry::new(i as u64, 1, alloc_op(&format!("req-{}", i), i * 10));
        sm.apply_entry(&entry).ok();
    }

    for i in 1..=2 {
        let op = LogOperation::RegisterPeer {
            peer_id: format!("node-{}", i + 1),
            peer_addr: format!("localhost:5005{}", i),
            capacity: 512,
        };
        let entry = LogEntry::new((3 + i) as u64, 1, op);
        sm.apply_entry(&entry).ok();
    }

    assert_eq!(sm.allocations().len(), 3);
    assert_eq!(sm.peers().len(), 2);
    assert_eq!(sm.applied_count(), 5);
}

#[test]
fn state_machine_test_state_hash_consistency() {
    let mut sm1 = StateMachine::new();
    let mut sm2 = StateMachine::new();

    let entry = LogEntry::new(1, 1, alloc_op("req-1", 100));

    sm1.apply_entry(&entry).ok();
    sm2.apply_entry(&entry).ok();

    assert_eq!(sm1.state_hash(), sm2.state_hash());
}

#[test]
fn test_state_hash_differs_with_different_state() {
    let mut sm1 = StateMachine::new();
    let mut sm2 = StateMachine::new();

    sm1.apply_entry(&LogEntry::new(1, 1, alloc_op("req-1", 100))).ok();
    sm2.apply_entry(&LogEntry::new(1, 1, alloc_op("req-2", 200))).ok();

    assert_ne!(sm1.state_hash(), sm2.state_hash());
}

#[test]
fn test_clear_state() {
    let mut sm = StateMachine::new();

    sm.apply_entry(&LogEntry::new(1, 1, alloc_op("req-1", 100))).ok();

    assert!(sm.applied_count() > 0);

    sm.clear();

    assert_eq!(sm.applied_count(), 0);
    assert_eq!(sm.allocations().len(), 0);
    assert_eq!(sm.peers().len(), 0);
}

#[test]
fn test_hash_independent_of_apply_time() {
    // Two machines applying the same entries at different times agree.
    let mut sm1 = StateMachine::new();
    sm1.apply_entry(&LogEntry::new(1, 1, alloc_op("req-1", 7))).unwrap();
    let mut sm2 = StateMachine::new();
    sm2.apply_entry(&LogEntry::new(1, 1, alloc_op("req-1", 7))).unwrap();
    assert_eq!(sm1.state_hash(), sm2.state_hash());
}

#[test]
fn test_unknown_deallocation_is_already_applied() {
    let mut sm = StateMachine::new();
    let op = LogOperation::Deallocate { request_id: "nope".to_string(), blocks: vec![] };
    let result = sm.apply_entry(&LogEntry::new(1, 1, op)).unwrap();
    assert_eq!(result, OperationResult::AlreadyApplied);
    assert_eq!(sm.applied_count(), 0);
}

#[test]
fn test_hex_is_lowercase_and_64_chars() {
    let sm = StateMachine::new();
    let hex = to_hex(&sm.state_hash());
    assert_eq!(hex.len(), 64);
    assert!(hex.chars().all(|c| c.is_ascii_hexdigit() && !c.is_ascii_uppercase()));
    let mut b = [0u8; 32];
    b[0] = 0xab;
    b[31] = 0x01;
    let h = to_hex(&b);
    assert!(h.starts_with("ab00"));
    assert!(h.ends_with("01"));
}

#[test]
fn test_hash_is_blake3_of_hash_input() {
    let mut sm = StateMachine::new();
    sm.apply_entry(&LogEntry::new(1, 1, alloc_op("req-1", 3))).unwrap();
    let input = sm.hash_input();
    assert_eq!(&sm.state_hash(), blake3::hash(&input).as_bytes());
}

#[test]
fn test_release_applied_twice_changes_nothing_the_second_time() {
    let mut sm = StateMachine::new();
    sm.apply_entry(&LogEntry::new(1, 1, alloc_op("req-1", 4))).unwrap();
    let release = LogEntry::new(
        2,
        1,
        LogOperation::Deallocate { request_id: "req-1".to_string(), blocks: vec![0, 1] },
    );
    assert_eq!(sm.apply_entry(&release).unwrap(), OperationResult::Success);
    let hash = sm.state_hash();
    let count = sm.applied_count();
    assert_eq!(sm.apply_entry(&release).unwrap(), OperationResult::AlreadyApplied);
    assert_eq!(sm.state_hash(), hash);
    assert_eq!(sm.applied_count(), count);
}
