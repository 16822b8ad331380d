use aegis::consensus::{QuorumConfig, Vote};
use aegis::replicated_log::{LogEntry, LogOperation};
use aegis::state_machine_coordinator::StateMachineCoordinator;
use aegis::state_machine_grpc::{
    AppendEntriesRequest, ReplicateEntriesRequest, RequestVoteRequest, StateMachineGrpcService,
};
use aegis::state_machine_replication::StateMachineReplication;

struct GrpcCluster {
    services: Vec<StateMachineGrpcService>,
    node_ids: Vec<String>,
}

impl GrpcCluster {
    fn new_3node() -> Self {
        let node_ids = vec!["node-1".to_string(), "node-2".to_string(), "node-3".to_string()];
        let services = node_ids
            .iter()
            .map(|node_id| {
                let config = QuorumConfig::new(node_id, node_ids.clone());
                let coordinator = StateMachineCoordinator::new(config, 100);
                StateMachineGrpcService::new(coordinator, StateMachineReplication::new())
            })
            .collect();
        Self { services, node_ids }
    }
}

fn vote_request(candidate: &str, term: u64, last_log_term: u64) -> RequestVoteRequest {
    RequestVoteRequest { candidate_id: candidate.to_string(), term, last_log_lsn: None, last_log_term }
}

fn alloc_entry(lsn: u64, request_id: &str, num_blocks: usize) -> LogEntry {
    LogEntry::new(lsn, 1, LogOperation::Allocate { request_id: request_id.to_string(), num_blocks })
}

fn heartbeat(term: u64, leader_commit: u64) -> AppendEntriesRequest {
    AppendEntriesRequest {
        leader_id: "node-1".to_string(),
        term,
        prev_log_lsn: 0,
        prev_log_term: 0,
        entries: vec![],
        leader_commit,
    }
}

fn elect_node1_with_node2(cluster: &mut GrpcCluster) {
    let consensus = cluster.services[0].coordinator_mut().consensus_mut();
    consensus.request_votes().ok();
    consensus.receive_vote("node-2", Vote::Yes).ok();
    consensus.check_election_won();
}

#[test]
fn test_grpc_service_creation() {
    let cluster = GrpcCluster::new_3node();
    assert_eq!(cluster.services.len(), 3);
    assert_eq!(cluster.node_ids.len(), 3);
}

#[test]
fn test_grpc_request_vote_rpc() {
    let mut cluster = GrpcCluster::new_3node();
    let req = vote_request(&cluster.node_ids[0], 1, 0);
    let resp = cluster.services[1].request_vote(req).unwrap();
    assert!(resp.vote_granted);
    assert_eq!(resp.voter_id, "node-2");
}

#[test]
fn test_grpc_append_entries_heartbeat() {
    let mut cluster = GrpcCluster::new_3node();
    let resp = cluster.services[1].append_entries(heartbeat(1, 0)).unwrap();
    assert!(resp.success);
    assert_eq!(resp.follower_id, "node-2");
}

#[test]
fn test_grpc_append_entries_with_entries() {
    let mut cluster = GrpcCluster::new_3node();
    let follower = &mut cluster.services[1];
    let req = AppendEntriesRequest {
        leader_id: "node-1".to_string(),
        term: 1,
        prev_log_lsn: 0,
        prev_log_term: 0,
        entries: vec![alloc_entry(1, "req-1", 100)],
        leader_commit: 1,
    };
    let resp = follower.append_entries(req).unwrap();
    assert!(resp.success);
    assert_eq!(resp.match_lsn, 1);
    assert_eq!(follower.coordinator().log_len(), 1);
}

#[test]
fn test_grpc_replicate_entries_rpc() {
    let mut cluster = GrpcCluster::new_3node();
    let req = ReplicateEntriesRequest {
        leader_id: "node-1".to_string(),
        term: 1,
        entries: vec![alloc_entry(1, "req-1", 50)],
        leader_commit: 1,
    };
    let resp = cluster.services[1].replicate_entries(req).unwrap();
    assert!(resp.success);
    assert_eq!(resp.last_lsn, 1);
}

#[test]
fn test_grpc_election_workflow() {
    let mut cluster = GrpcCluster::new_3node();
    cluster.services[0].coordinator_mut().consensus_mut().request_votes().ok();

    let req = vote_request(&cluster.node_ids[0], 1, 0);
    let resp1 = cluster.services[1].request_vote(req.clone()).unwrap();
    let resp2 = cluster.services[2].request_vote(req).unwrap();
    assert!(resp1.vote_granted);
    assert!(resp2.vote_granted);

    let voter1 = cluster.node_ids[1].clone();
    let voter2 = cluster.node_ids[2].clone();
    let consensus = cluster.services[0].coordinator_mut().consensus_mut();
    consensus.receive_vote(&voter1, Vote::Yes).ok();
    consensus.receive_vote(&voter2, Vote::Yes).ok();
    assert!(consensus.check_election_won());
}

#[test]
fn test_grpc_leader_term_advancement() {
    let mut cluster = GrpcCluster::new_3node();
    cluster.services[0].coordinator_mut().consensus_mut().request_votes().ok();

    let req1 = vote_request(&cluster.node_ids[0], 1, 0);
    let resp1 = cluster.services[1].request_vote(req1).unwrap();
    assert_eq!(resp1.term, 1);

    let req2 = vote_request(&cluster.node_ids[1], 2, 1);
    let resp2 = cluster.services[0].request_vote(req2).unwrap();
    assert_eq!(resp2.term, 2);
}

#[test]
fn test_grpc_heartbeat_resets_election_timeout() {
    let mut cluster = GrpcCluster::new_3node();
    cluster.services[1].append_entries(heartbeat(1, 0)).ok();
    assert!(!cluster.services[1].coordinator().consensus().election_timeout_elapsed(500));
}

#[test]
fn test_grpc_periodic_heartbeat_workflow() {
    let mut cluster = GrpcCluster::new_3node();
    elect_node1_with_node2(&mut cluster);

    for _ in 0..3 {
        for i in 1..3 {
            let term = cluster.services[0].coordinator().current_term();
            let commit = cluster.services[0].coordinator().commit_index();
            let resp = cluster.services[i].append_entries(heartbeat(term, commit)).unwrap();
            assert!(resp.success);
        }
    }

    for i in 1..3 {
        assert!(!cluster.services[i].coordinator().consensus().election_timeout_elapsed(500));
    }
}

#[test]
fn test_grpc_get_state_info() {
    let cluster = GrpcCluster::new_3node();
    let info = cluster.services[0].get_state_info();
    assert_eq!(info.node_id, "node-1");
    assert!(!info.is_leader);
    assert_eq!(info.log_len, 0);
    assert_eq!(info.current_term, 0);
}

#[test]
fn test_grpc_state_info_after_allocation() {
    let mut cluster = GrpcCluster::new_3node();
    elect_node1_with_node2(&mut cluster);

    let leader = &mut cluster.services[0];
    let lsn = leader.allocate("req-1", 100).unwrap();
    leader.coordinator_mut().commit_to_lsn(lsn).ok();
    leader.coordinator_mut().apply_pending().ok();

    let info = leader.get_state_info();
    assert!(info.is_leader);
    assert_eq!(info.log_len, 1);
    assert_eq!(info.commit_index, 1);
    assert_eq!(info.applied_count, 1);
}

#[test]
fn test_grpc_get_replication_status() {
    let mut cluster = GrpcCluster::new_3node();
    elect_node1_with_node2(&mut cluster);

    let leader = &mut cluster.services[0];
    leader.replication_mut().register_follower("node-2").ok();
    leader.replication_mut().register_follower("node-3").ok();

    let status = leader.get_replication_status();
    assert!(status.is_some());
    assert_eq!(status.unwrap().total_followers, 2);
}

#[test]
fn test_grpc_allocate_rejects_non_leader() {
    let mut cluster = GrpcCluster::new_3node();
    let result = cluster.services[1].allocate("req-1", 100);
    assert!(result.is_err());
}

#[test]
fn test_grpc_log_consistency_check() {
    let mut cluster = GrpcCluster::new_3node();
    let req = AppendEntriesRequest {
        leader_id: "node-1".to_string(),
        term: 1,
        prev_log_lsn: 4,
        prev_log_term: 1,
        entries: vec![alloc_entry(5, "req-1", 100)],
        leader_commit: 0,
    };
    let resp = cluster.services[1].append_entries(req).unwrap();
    assert!(!resp.success);
}

#[test]
fn test_grpc_term_update_on_rpc() {
    let mut cluster = GrpcCluster::new_3node();
    let _initial_term = cluster.services[1].coordinator().current_term();
    let resp = cluster.services[1].request_vote(vote_request("node-1", 5, 0)).unwrap();
    assert_eq!(resp.term, 5);
    assert!(cluster.services[1].coordinator().current_term() >= 5);
}

#[test]
fn test_grpc_advance_commit_index_follows_acknowledgements() {
    let mut cluster = GrpcCluster::new_3node();
    elect_node1_with_node2(&mut cluster);

    let leader = &mut cluster.services[0];
    leader.replication_mut().register_follower("node-2").ok();
    leader.replication_mut().register_follower("node-3").ok();
    let lsn1 = leader.allocate("req-1", 10).unwrap();
    let lsn2 = leader.allocate("req-2", 20).unwrap();

    leader.replication_mut().acknowledge_replication("node-2", lsn2).unwrap();
    leader.advance_commit_index().unwrap();
    assert_eq!(leader.coordinator().commit_index(), 0);

    leader.replication_mut().acknowledge_replication("node-3", lsn1).unwrap();
    leader.advance_commit_index().unwrap();
    assert_eq!(leader.coordinator().commit_index(), lsn1);
}

#[test]
fn test_grpc_newer_term_makes_leader_step_down() {
    let mut cluster = GrpcCluster::new_3node();
    elect_node1_with_node2(&mut cluster);
    assert!(cluster.services[0].coordinator().is_leader());

    let resp = cluster.services[0].request_vote(vote_request("node-3", 7, 1)).unwrap();
    assert!(resp.vote_granted);
    assert_eq!(resp.term, 7);
    assert!(!cluster.services[0].coordinator().is_leader());
    assert_eq!(cluster.services[0].coordinator().current_term(), 7);

    let stale = cluster.services[0].request_vote(vote_request("node-2", 3, 0)).unwrap();
    assert!(!stale.vote_granted);
    assert_eq!(stale.term, 7);
}

#[test]
fn test_grpc_append_entries_at_records_heartbeat_time() {
    let mut cluster = GrpcCluster::new_3node();
    let resp = cluster.services[1].append_entries_at(heartbeat(1, 0), 12_345).unwrap();
    assert!(resp.success);
    let consensus = cluster.services[1].coordinator().consensus();
    assert!(consensus.election_timeout_elapsed_at(12_445, 99));
    assert!(!consensus.election_timeout_elapsed_at(12_445, 100));
}
