use aegis::replicated_log::{LogEntry, LogOperation, ReplicatedLog};
use aegis::state_machine_replication::StateMachineReplication;

fn log_with(n: u64) -> ReplicatedLog {
    let mut log = ReplicatedLog::new(100);
    for i in 1..=n {
        let entry = LogEntry::new(i, 1, LogOperation::Allocate { request_id: format!("req-{}", i), num_blocks: 10 });
        log.append(entry).ok();
    }
    log
}

#[test]
fn test_replication_manager_creation() {
    let replication = StateMachineReplication::new();
    assert_eq!(replication.followers().len(), 0);
}

#[test]
fn test_register_follower() {
    let mut replication = StateMachineReplication::new();

    assert!(replication.register_follower("node-2").is_ok());
    assert_eq!(replication.followers().len(), 1);

    let follower = replication.get_follower("node-2").unwrap();
    assert_eq!(follower.follower_id, "node-2");
    assert_eq!(follower.next_lsn, 1);
    assert_eq!(follower.match_lsn, 0);
}

#[test]
fn test_duplicate_follower_registration() {
    let mut replication = StateMachineReplication::new();

    assert!(replication.register_follower("node-2").is_ok());
    assert!(replication.register_follower("node-2").is_err());
}

#[test]
fn test_unregister_follower() {
    let mut replication = StateMachineReplication::new();

    replication.register_follower("node-2").ok();
    assert_eq!(replication.followers().len(), 1);

    assert!(replication.unregister_follower("node-2").is_ok());
    assert_eq!(replication.followers().len(), 0);
}

#[test]
fn test_acknowledge_replication() {
    let mut replication = StateMachineReplication::new();

    replication.register_follower("node-2").ok();
    assert!(replication.acknowledge_replication("node-2", 5).is_ok());

    let follower = replication.get_follower("node-2").unwrap();
    assert_eq!(follower.next_lsn, 6);
    assert_eq!(follower.match_lsn, 5);
}

#[test]
fn test_acknowledge_replication_failure() {
    let mut replication = StateMachineReplication::new();

    replication.register_follower("node-2").ok();
    replication.acknowledge_replication("node-2", 5).ok();

    assert!(replication.acknowledge_replication_failure("node-2").is_ok());

    let follower = replication.get_follower("node-2").unwrap();
    assert_eq!(follower.next_lsn, 5); // Backed off
}

#[test]
fn test_quorum_replication() {
    let mut replication = StateMachineReplication::new();

    replication.register_follower("node-2").ok();
    replication.register_follower("node-3").ok();

    assert!(!replication.has_quorum_replication(1));

    replication.acknowledge_replication("node-2", 1).ok();
    assert!(replication.has_quorum_replication(1));
}

#[test]
fn test_min_match_lsn() {
    let mut replication = StateMachineReplication::new();

    replication.register_follower("node-2").ok();
    replication.register_follower("node-3").ok();

    replication.acknowledge_replication("node-2", 10).ok();
    replication.acknowledge_replication("node-3", 5).ok();

    assert_eq!(replication.min_match_lsn(), 5);
}

#[test]
fn test_advance_commit_index() {
    let mut replication = StateMachineReplication::new();
    replication.register_follower("node-2").ok();

    let mut log = log_with(5);

    replication.acknowledge_replication("node-2", 5).ok();

    assert!(replication.advance_commit_index(&mut log).is_ok());
    assert_eq!(log.commit_index(), 5);
}

#[test]
fn state_machine_replication_test_replication_status() {
    let mut replication = StateMachineReplication::new();
    let log = ReplicatedLog::new(100);

    replication.register_follower("node-2").ok();
    replication.register_follower("node-3").ok();

    replication.acknowledge_replication("node-2", 3).ok();
    replication.acknowledge_replication("node-3", 2).ok();

    let status = replication.replication_status(&log);
    assert_eq!(status.total_followers, 2);
    assert_eq!(status.min_match_lsn, 2);
}

#[test]
fn test_needs_heartbeat_at_explicit_times() {
    let mut replication = StateMachineReplication::new();
    replication.register_follower("node-2").ok();
    let hb = replication.get_follower("node-2").unwrap().heartbeat_at_ms;
    assert!(!replication.needs_heartbeat_at("node-2", 100, hb + 99));
    assert!(replication.needs_heartbeat_at("node-2", 100, hb + 100));
    assert!(!replication.needs_heartbeat_at("unknown", 100, hb + 1000));
}

#[test]
fn test_entries_for_follower_start_at_next_lsn() {
    let mut replication = StateMachineReplication::new();
    replication.register_follower("node-2").ok();
    let log = log_with(4);
    replication.acknowledge_replication("node-2", 2).ok();
    let entries = replication.get_entries_for_follower("node-2", &log).unwrap();
    assert_eq!(entries.iter().map(|e| e.lsn).collect::<Vec<_>>(), vec![3, 4]);
    assert!(replication.get_entries_for_follower("node-9", &log).is_err());
}

#[test]
fn test_commit_waits_for_slowest_follower() {
    let mut replication = StateMachineReplication::new();
    replication.register_follower("node-2").ok();
    replication.register_follower("node-3").ok();
    let mut log = log_with(5);
    replication.acknowledge_replication("node-2", 5).ok();
    replication.acknowledge_replication("node-3", 3).ok();
    replication.advance_commit_index(&mut log).unwrap();
    assert_eq!(log.commit_index(), 3);
    assert!(replication.has_quorum_replication(3));
}
