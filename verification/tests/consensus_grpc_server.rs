use aegis::consensus::QuorumConfig;
use aegis::consensus_grpc_server::{ConsensusGrpcServer, GrpcServerConfig, PoolError, RpcClient, RpcClientPool, RpcError};
use aegis::replicated_log::{LogEntry, LogOperation};
use aegis::state_machine_coordinator::StateMachineCoordinator;
use aegis::state_machine_grpc::{AppendEntriesRequest, RequestVoteRequest, StateMachineGrpcService};
use aegis::state_machine_replication::StateMachineReplication;

fn service() -> StateMachineGrpcService {
    let coordinator = StateMachineCoordinator::new(
        QuorumConfig::new("node-1", vec!["node-1".to_string(), "node-2".to_string()]),
        100,
    );
    StateMachineGrpcService::new(coordinator, StateMachineReplication::new())
}

fn vote_request() -> RequestVoteRequest {
    RequestVoteRequest { candidate_id: "node-1".to_string(), term: 4, last_log_lsn: None, last_log_term: 0 }
}

#[test]
fn test_rpc_client_creation() {
    let config = GrpcServerConfig::default();
    let client = RpcClient::new("node-2".to_string(), "127.0.0.1:50052".to_string(), config);

    assert_eq!(client.peer_id(), "node-2");
    assert!(client.is_healthy());
}

#[test]
fn test_rpc_client_pool() {
    let config = GrpcServerConfig::default();
    let mut pool = RpcClientPool::new(config);

    assert!(pool.add_peer("node-2".to_string(), "127.0.0.1:50052".to_string()).is_ok());
    assert!(pool.add_peer("node-3".to_string(), "127.0.0.1:50053".to_string()).is_ok());

    assert_eq!(pool.size(), 2);
    assert_eq!(pool.healthy_count(), 2);
}

#[test]
fn test_rpc_client_health_tracking() {
    let config = GrpcServerConfig { max_retries: 2, ..Default::default() };
    let mut client = RpcClient::new("node-2".to_string(), "127.0.0.1:50052".to_string(), config);

    assert!(client.is_healthy());

    client.record_failure();
    assert!(client.is_healthy()); // Still healthy after 1 failure

    client.record_failure();
    assert!(!client.is_healthy()); // Unhealthy after 2 failures
}

#[test]
fn test_grpc_server_creation() {
    let config = GrpcServerConfig::default();
    let server = ConsensusGrpcServer::new(config, service());
    assert_eq!(server.client_pool().size(), 0);
}

#[test]
fn test_server_peer_registration() {
    let config = GrpcServerConfig::default();
    let mut server = ConsensusGrpcServer::new(config, service());

    assert!(server.register_peer("node-2".to_string(), "127.0.0.1:50052".to_string()).is_ok());

    assert_eq!(server.client_pool().size(), 1);
    assert_eq!(server.client_pool().healthy_count(), 1);
}

#[test]
fn test_server_health_status() {
    let config = GrpcServerConfig::default();
    let server = ConsensusGrpcServer::new(config, service());

    let status = server.health_status();
    assert!(status.is_running);
    assert_eq!(status.peer_count, 0);
    assert_eq!(status.bind_addr, "127.0.0.1:50051");
}

#[test]
fn test_grpc_default_config() {
    let config = GrpcServerConfig::default();
    assert_eq!(config.request_timeout_ms, 5000);
    assert_eq!(config.max_retries, 3);
    assert_eq!(config.connection_pool_size, 100);
}

#[test]
fn test_vote_call_outcomes() {
    let config = GrpcServerConfig { max_retries: 1, request_timeout_ms: 10, ..Default::default() };
    let mut client = RpcClient::new("node-2".to_string(), "a".to_string(), config);
    let resp = client.request_vote(&vote_request(), 1_000_000).unwrap();
    assert_eq!(resp.voter_id, "node-2");
    assert_eq!(resp.term, 4);
    assert!(resp.vote_granted);
    // Exactly the timeout is no timeout; one nanosecond more is.
    assert!(client.request_vote(&vote_request(), 10_000_000).is_ok());
    assert_eq!(client.request_vote(&vote_request(), 10_000_001).unwrap_err(), RpcError::Timeout);
    assert!(!client.is_healthy());
    assert_eq!(client.request_vote(&vote_request(), 0).unwrap_err(), RpcError::Unhealthy);
}

#[test]
fn test_append_call_match_lsn() {
    let mut client = RpcClient::new("node-2".to_string(), "a".to_string(), GrpcServerConfig::default());
    let empty = AppendEntriesRequest {
        leader_id: "node-1".to_string(),
        term: 2,
        prev_log_lsn: 7,
        prev_log_term: 1,
        entries: vec![],
        leader_commit: 0,
    };
    assert_eq!(client.append_entries(&empty, 0).unwrap().match_lsn, 7);
    let entry = LogEntry::new(9, 2, LogOperation::Allocate { request_id: "r".to_string(), num_blocks: 1 });
    let one = AppendEntriesRequest { entries: vec![entry], ..empty };
    let resp = client.append_entries(&one, 0).unwrap();
    assert_eq!(resp.match_lsn, 9);
    assert_eq!(resp.follower_id, "node-2");
    assert!(resp.success);
}

#[test]
fn test_pool_refusals_and_removal() {
    let config = GrpcServerConfig { connection_pool_size: 1, ..Default::default() };
    let mut pool = RpcClientPool::new(config);
    pool.add_peer("node-2".to_string(), "a".to_string()).unwrap();
    assert_eq!(pool.add_peer("node-3".to_string(), "b".to_string()), Err(PoolError::Full));
    pool.remove_peer("node-2").unwrap();
    assert_eq!(pool.remove_peer("node-2"), Err(PoolError::NotFound));
    pool.add_peer("node-3".to_string(), "b".to_string()).unwrap();
    assert!(pool.get_client("node-3").is_ok());
    assert!(pool.get_client("node-2").is_err());
}

#[test]
fn test_pool_duplicate_peer_refused() {
    let mut pool = RpcClientPool::new(GrpcServerConfig::default());
    pool.add_peer("node-2".to_string(), "a".to_string()).unwrap();
    assert_eq!(pool.add_peer("node-2".to_string(), "b".to_string()), Err(PoolError::AlreadyPresent));
    assert_eq!(pool.peer_ids(), vec!["node-2".to_string()]);
}

#[test]
fn test_broadcast_keeps_answers_that_came_back() {
    let config = GrpcServerConfig { max_retries: 1, request_timeout_ms: 1, ..Default::default() };
    let mut pool = RpcClientPool::new(config);
    pool.add_peer("node-2".to_string(), "a".to_string()).unwrap();
    pool.add_peer("node-3".to_string(), "b".to_string()).unwrap();
    let answers = pool.broadcast_request_vote(&vote_request(), &vec![0, 5_000_000]);
    assert_eq!(answers.len(), 1);
    assert_eq!(answers[0].voter_id, "node-2");
    assert_eq!(pool.healthy_peers(), vec!["node-2".to_string()]);
    assert_eq!(pool.healthy_count(), 1);
    let statuses = pool.health_status();
    assert_eq!(statuses.len(), 2);
    assert!(!statuses[1].is_healthy);
    assert_eq!(statuses[1].failed_attempts, 1);
}
