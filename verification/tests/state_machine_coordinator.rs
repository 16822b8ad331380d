use aegis::consensus::{ConsensusState, QuorumConfig, Vote};
use aegis::state_machine_coordinator::{CoordinatorError, StateMachineCoordinator};

fn three_nodes() -> QuorumConfig {
    QuorumConfig::new("node-1", vec!["node-1".to_string(), "node-2".to_string(), "node-3".to_string()])
}

fn elect(coordinator: &mut StateMachineCoordinator) -> bool {
    coordinator.consensus_mut().request_votes().ok();
    coordinator.consensus_mut().receive_vote("node-2", Vote::Yes).ok();
    coordinator.consensus_mut().check_election_won()
}

#[test]
fn test_coordinator_creation() {
    let coordinator = StateMachineCoordinator::new(three_nodes(), 100);

    assert_eq!(coordinator.consensus_state(), ConsensusState::Follower);
    assert_eq!(coordinator.current_term(), 0);
    assert!(!coordinator.is_leader());
}

#[test]
fn test_leader_allocation() {
    let mut coordinator = StateMachineCoordinator::new(three_nodes(), 100);

    assert!(elect(&mut coordinator));

    let result = coordinator.allocate("req-1", 100);
    assert!(result.is_ok());
    let lsn = result.unwrap();
    assert_eq!(lsn, 1);
    assert_eq!(coordinator.log_len(), 1);
}

#[test]
fn state_machine_coordinator_test_follower_cannot_allocate() {
    let mut coordinator = StateMachineCoordinator::new(three_nodes(), 100);

    assert!(!coordinator.is_leader());

    let result = coordinator.allocate("req-1", 100);
    assert!(result.is_err());
}

#[test]
fn state_machine_coordinator_test_commit_and_apply() {
    let mut coordinator = StateMachineCoordinator::new(three_nodes(), 100);
    elect(&mut coordinator);

    let lsn = coordinator.allocate("req-1", 100).unwrap();

    coordinator.commit_to_lsn(lsn).unwrap();
    assert_eq!(coordinator.commit_index(), 1);

    let applied = coordinator.apply_pending().unwrap();
    assert_eq!(applied, 1);
    assert_eq!(coordinator.last_applied(), 1);

    let alloc = coordinator.get_allocation("req-1");
    assert!(alloc.is_some());
    assert_eq!(alloc.unwrap().num_blocks, 100);
}

#[test]
fn state_machine_coordinator_test_multiple_operations() {
    let mut coordinator = StateMachineCoordinator::new(three_nodes(), 100);
    elect(&mut coordinator);

    for i in 1..=3 {
        let lsn = coordinator.allocate(&format!("req-{}", i), i * 10).unwrap();
        coordinator.commit_to_lsn(lsn).unwrap();
    }

    let applied = coordinator.apply_pending().unwrap();
    assert_eq!(applied, 3);

    assert_eq!(coordinator.allocations().len(), 3);
    assert_eq!(coordinator.applied_count(), 3);
}

#[test]
fn test_deallocation() {
    let mut coordinator = StateMachineCoordinator::new(three_nodes(), 100);
    elect(&mut coordinator);

    let lsn1 = coordinator.allocate("req-1", 100).unwrap();
    coordinator.commit_to_lsn(lsn1).unwrap();
    coordinator.apply_pending().unwrap();

    let lsn2 = coordinator.deallocate("req-1", vec![0, 1, 2]).unwrap();
    coordinator.commit_to_lsn(lsn2).unwrap();
    coordinator.apply_pending().unwrap();

    assert!(coordinator.get_allocation("req-1").is_none());
    assert_eq!(coordinator.allocations().len(), 0);
}

#[test]
fn test_peer_registration() {
    let mut coordinator = StateMachineCoordinator::new(three_nodes(), 100);
    elect(&mut coordinator);

    let lsn = coordinator.register_peer("node-4", "localhost:50054", 2048).unwrap();

    coordinator.commit_to_lsn(lsn).unwrap();
    coordinator.apply_pending().unwrap();

    let peer = coordinator.get_peer("node-4").unwrap();
    assert_eq!(peer.peer_id, "node-4");
    assert_eq!(peer.peer_addr, "localhost:50054");
    assert_eq!(peer.capacity, 2048);
}

#[test]
fn state_machine_coordinator_test_state_hash_consistency() {
    let mut coordinator = StateMachineCoordinator::new(three_nodes(), 100);
    elect(&mut coordinator);

    let lsn = coordinator.allocate("req-1", 100).unwrap();
    coordinator.commit_to_lsn(lsn).unwrap();
    coordinator.apply_pending().unwrap();

    let hash1 = coordinator.state_hash();

    let lsn2 = coordinator.allocate("req-2", 100).unwrap();
    coordinator.commit_to_lsn(lsn2).unwrap();
    coordinator.apply_pending().unwrap();

    let hash2 = coordinator.state_hash();
    assert_ne!(hash1, hash2);
}

#[test]
fn test_idempotent_application() {
    let mut coordinator = StateMachineCoordinator::new(three_nodes(), 100);
    elect(&mut coordinator);

    let lsn = coordinator.allocate("req-1", 100).unwrap();
    coordinator.commit_to_lsn(lsn).unwrap();

    let applied1 = coordinator.apply_pending().unwrap();
    assert_eq!(applied1, 1);

    let applied2 = coordinator.apply_pending().unwrap();
    assert_eq!(applied2, 0);

    assert_eq!(coordinator.allocations().len(), 1);
}

#[test]
fn test_not_leader_error_and_full_log() {
    let mut coordinator = StateMachineCoordinator::new(three_nodes(), 1);
    assert!(matches!(coordinator.allocate("a", 1), Err(CoordinatorError::NotLeader)));
    elect(&mut coordinator);
    assert_eq!(coordinator.allocate("a", 1).unwrap(), 1);
    assert!(matches!(coordinator.allocate("b", 1), Err(CoordinatorError::Log(_))));
}

#[test]
fn test_two_replicas_applying_the_same_log_agree() {
    let mut a = StateMachineCoordinator::new(three_nodes(), 100);
    let mut b = StateMachineCoordinator::new(three_nodes(), 100);
    elect(&mut a);
    elect(&mut b);
    for c in [&mut a, &mut b] {
        let l1 = c.allocate("req-1", 4).unwrap();
        let l2 = c.register_peer("node-9", "h:1", 8).unwrap();
        c.commit_to_lsn(l1).unwrap();
        c.commit_to_lsn(l2).unwrap();
        c.apply_pending().unwrap();
    }
    assert_eq!(a.state_hash(), b.state_hash());
}
