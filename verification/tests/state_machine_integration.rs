use aegis::consensus::{QuorumConfig, Vote};
use aegis::state_machine_coordinator::StateMachineCoordinator;

fn config_for(node_id: &str, nodes: &[&str]) -> QuorumConfig {
    QuorumConfig::new(node_id, nodes.iter().map(|n| n.to_string()).collect())
}

fn win_election(coordinator: &mut StateMachineCoordinator, voter: &str) -> bool {
    coordinator.consensus_mut().request_votes().ok();
    coordinator.consensus_mut().receive_vote(voter, Vote::Yes).ok();
    coordinator.consensus_mut().check_election_won()
}

const THREE: [&str; 3] = ["node-1", "node-2", "node-3"];
const TWO: [&str; 2] = ["node-1", "node-2"];

#[test]
fn test_leader_single_allocation() {
    let mut coordinator = StateMachineCoordinator::new(config_for("node-1", &THREE), 100);
    assert!(win_election(&mut coordinator, "node-2"));

    let lsn = coordinator.allocate("req-1", 100).unwrap();
    assert_eq!(lsn, 1);
    assert_eq!(coordinator.log_len(), 1);

    coordinator.commit_to_lsn(lsn).unwrap();
    assert_eq!(coordinator.commit_index(), 1);

    let applied = coordinator.apply_pending().unwrap();
    assert_eq!(applied, 1);
    assert_eq!(coordinator.last_applied(), 1);

    let alloc = coordinator.get_allocation("req-1").unwrap();
    assert_eq!(alloc.request_id, "req-1");
    assert_eq!(alloc.num_blocks, 100);
}

#[test]
fn test_leader_multiple_allocations() {
    let mut coordinator = StateMachineCoordinator::new(config_for("node-1", &THREE), 100);
    win_election(&mut coordinator, "node-2");

    for i in 1..=5usize {
        let lsn = coordinator.allocate(&format!("req-{}", i), i * 10).unwrap();
        coordinator.commit_to_lsn(lsn).unwrap();
    }

    let applied = coordinator.apply_pending().unwrap();
    assert_eq!(applied, 5);

    let allocations = coordinator.allocations();
    assert_eq!(allocations.len(), 5);
    for i in 1..=5usize {
        let alloc = coordinator.get_allocation(&format!("req-{}", i)).unwrap();
        assert_eq!(alloc.num_blocks, i * 10);
    }
}

#[test]
fn test_leader_allocation_and_deallocation() {
    let mut coordinator = StateMachineCoordinator::new(config_for("node-1", &THREE), 100);
    win_election(&mut coordinator, "node-2");

    let lsn1 = coordinator.allocate("req-1", 100).unwrap();
    coordinator.commit_to_lsn(lsn1).unwrap();
    coordinator.apply_pending().unwrap();
    assert_eq!(coordinator.allocations().len(), 1);

    let lsn2 = coordinator.deallocate("req-1", vec![0, 1, 2]).unwrap();
    coordinator.commit_to_lsn(lsn2).unwrap();
    coordinator.apply_pending().unwrap();

    assert_eq!(coordinator.allocations().len(), 0);
    assert!(coordinator.get_allocation("req-1").is_none());
}

#[test]
fn test_leader_and_follower_replication() {
    let nodes = ["leader", "follower-1", "follower-2"];
    let mut leader = StateMachineCoordinator::new(config_for("leader", &nodes), 100);
    let mut follower1 = StateMachineCoordinator::new(config_for("follower-1", &nodes), 100);
    let mut follower2 = StateMachineCoordinator::new(config_for("follower-2", &nodes), 100);

    assert!(win_election(&mut leader, "follower-1"));

    let lsn = leader.allocate("req-1", 100).unwrap();

    let entry = leader.log().get(lsn).unwrap();
    follower1.log_mut().append(entry.clone()).ok();
    follower2.log_mut().append(entry).ok();

    leader.commit_to_lsn(lsn).unwrap();
    leader.apply_pending().unwrap();
    follower1.commit_to_lsn(lsn).unwrap();
    follower1.apply_pending().unwrap();
    follower2.commit_to_lsn(lsn).unwrap();
    follower2.apply_pending().unwrap();

    assert_eq!(leader.applied_count(), 1);
    assert_eq!(follower1.applied_count(), 1);
    assert_eq!(follower2.applied_count(), 1);

    let leader_alloc = leader.get_allocation("req-1").unwrap();
    let f1_alloc = follower1.get_allocation("req-1").unwrap();
    let f2_alloc = follower2.get_allocation("req-1").unwrap();
    assert_eq!(leader_alloc.request_id, f1_alloc.request_id);
    assert_eq!(f1_alloc.request_id, f2_alloc.request_id);
}

#[test]
fn test_3node_consensus_and_replication() {
    let mut coordinators: Vec<StateMachineCoordinator> = THREE
        .iter()
        .map(|node_id| StateMachineCoordinator::new(config_for(node_id, &THREE), 100))
        .collect();

    assert!(win_election(&mut coordinators[0], "node-2"));

    let mut lsns = vec![];
    for i in 1..=3usize {
        let lsn = coordinators[0].allocate(&format!("req-{}", i), i * 50).unwrap();
        lsns.push(lsn);
    }

    for lsn in &lsns {
        let entry = coordinators[0].log().get(*lsn).unwrap();
        for i in 1..3 {
            coordinators[i].log_mut().append(entry.clone()).ok();
        }
    }

    for lsn in &lsns {
        for coordinator in coordinators.iter_mut() {
            coordinator.commit_to_lsn(*lsn).unwrap();
        }
    }

    for coordinator in coordinators.iter_mut() {
        coordinator.apply_pending().unwrap();
    }

    for coordinator in &coordinators {
        assert_eq!(coordinator.applied_count(), 3);
        assert_eq!(coordinator.allocations().len(), 3);
        for i in 1..=3usize {
            let alloc = coordinator.get_allocation(&format!("req-{}", i)).unwrap();
            assert_eq!(alloc.num_blocks, i * 50);
        }
    }

    let hash1 = coordinators[0].state_hash();
    let hash2 = coordinators[1].state_hash();
    let hash3 = coordinators[2].state_hash();
    assert_eq!(hash1, hash2);
    assert_eq!(hash2, hash3);
}

#[test]
fn test_uncommitted_entries_not_applied() {
    let mut coordinator = StateMachineCoordinator::new(config_for("node-1", &THREE), 100);
    win_election(&mut coordinator, "node-2");

    coordinator.allocate("req-1", 100).unwrap();

    let applied = coordinator.apply_pending().unwrap();
    assert_eq!(applied, 0);
    assert!(coordinator.get_allocation("req-1").is_none());
}

#[test]
fn test_log_replication_maintains_order() {
    let mut leader = StateMachineCoordinator::new(config_for("node-1", &TWO), 100);
    let mut follower = StateMachineCoordinator::new(config_for("node-2", &TWO), 100);

    win_election(&mut leader, "node-2");

    let mut lsns = vec![];
    for i in 1..=5 {
        let lsn = leader.allocate(&format!("req-{}", i), 10).unwrap();
        lsns.push(lsn);
    }

    for lsn in &lsns {
        let entry = leader.log().get(*lsn).unwrap();
        follower.log_mut().append(entry).ok();
    }

    let follower_entries = follower.log().get_range(1, 5);
    assert_eq!(follower_entries.len(), 5);
    for (i, entry) in follower_entries.iter().enumerate() {
        assert_eq!(entry.lsn as usize, i + 1);
    }
}

#[test]
fn test_follower_catches_up_after_lag() {
    let mut leader = StateMachineCoordinator::new(config_for("node-1", &THREE), 100);
    let mut lagging_follower = StateMachineCoordinator::new(config_for("node-2", &THREE), 100);

    win_election(&mut leader, "node-2");

    for i in 1..=3 {
        let lsn = leader.allocate(&format!("req-{}", i), 10).unwrap();
        leader.commit_to_lsn(lsn).unwrap();
    }
    leader.apply_pending().unwrap();

    for lsn in 1..=3 {
        let entry = leader.log().get(lsn).unwrap();
        lagging_follower.log_mut().append(entry).ok();
    }
    for lsn in 1..=3 {
        lagging_follower.commit_to_lsn(lsn).unwrap();
    }
    lagging_follower.apply_pending().unwrap();

    assert_eq!(lagging_follower.applied_count(), 3);
    assert_eq!(leader.applied_count(), 3);
    assert_eq!(leader.state_hash(), lagging_follower.state_hash());
}

#[test]
fn state_machine_integration_test_peer_registration_replication() {
    let mut leader = StateMachineCoordinator::new(config_for("node-1", &TWO), 100);
    let mut follower = StateMachineCoordinator::new(config_for("node-2", &TWO), 100);

    win_election(&mut leader, "node-2");

    let lsn = leader.register_peer("node-3", "localhost:50053", 2048).unwrap();

    let entry = leader.log().get(lsn).unwrap();
    follower.log_mut().append(entry).ok();

    leader.commit_to_lsn(lsn).unwrap();
    leader.apply_pending().unwrap();
    follower.commit_to_lsn(lsn).unwrap();
    follower.apply_pending().unwrap();

    let leader_peer = leader.get_peer("node-3").unwrap();
    let follower_peer = follower.get_peer("node-3").unwrap();
    assert_eq!(leader_peer.peer_id, "node-3");
    assert_eq!(follower_peer.peer_id, "node-3");
    assert_eq!(leader_peer.capacity, 2048);
    assert_eq!(follower_peer.capacity, 2048);
}

#[test]
fn test_idempotent_reapplication() {
    let mut coordinator = StateMachineCoordinator::new(config_for("node-1", &TWO), 100);
    win_election(&mut coordinator, "node-2");

    let lsn = coordinator.allocate("req-1", 100).unwrap();
    coordinator.commit_to_lsn(lsn).unwrap();
    coordinator.apply_pending().unwrap();

    let state_hash_1 = coordinator.state_hash();
    let count_1 = coordinator.applied_count();

    coordinator.apply_pending().unwrap();

    assert_eq!(state_hash_1, coordinator.state_hash());
    assert_eq!(count_1, coordinator.applied_count());
}

#[test]
fn test_duplicate_requests_handled() {
    let mut leader = StateMachineCoordinator::new(config_for("node-1", &TWO), 100);
    let mut follower = StateMachineCoordinator::new(config_for("node-2", &TWO), 100);

    win_election(&mut leader, "node-2");

    let lsn1 = leader.allocate("req-1", 100).unwrap();
    let entry = leader.log().get(lsn1).unwrap();

    follower.log_mut().append(entry.clone()).ok();
    follower.log_mut().append(entry).ok();

    assert_eq!(follower.log_len(), 2);

    follower.commit_to_lsn(1).unwrap();
    follower.commit_to_lsn(2).unwrap();

    follower.apply_pending().unwrap();

    assert_eq!(follower.allocations().len(), 1);
}
