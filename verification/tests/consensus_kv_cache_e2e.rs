use aegis::allocator::KVCacheAllocator;
use aegis::consensus::{QuorumConfig, Vote};
use aegis::consensus_kv_cache::ConsensusKVCache;
use aegis::distributed::DistributedKVCache;
use aegis::state_machine_coordinator::StateMachineCoordinator;
use aegis::state_machine_grpc::{AppendEntriesRequest, RequestVoteRequest, StateMachineGrpcService};
use aegis::state_machine_replication::StateMachineReplication;

struct ConsensusKVCluster {
    caches: Vec<ConsensusKVCache>,
    node_ids: Vec<String>,
}

impl ConsensusKVCluster {
    fn new_3node() -> Self {
        let node_ids = vec!["node-1".to_string(), "node-2".to_string(), "node-3".to_string()];
        let caches = node_ids
            .iter()
            .map(|node_id| {
                let config = QuorumConfig::new(node_id, node_ids.clone());
                let coordinator = StateMachineCoordinator::new(config, 100);
                let grpc = StateMachineGrpcService::new(coordinator, StateMachineReplication::new());
                let allocator = KVCacheAllocator::new(8 * 1024 * 1024, 16 * 1024).unwrap();
                let kv_cache = DistributedKVCache::new(node_id.clone(), allocator);
                ConsensusKVCache::new(kv_cache, grpc)
            })
            .collect();
        Self { caches, node_ids }
    }

    fn elect_leader(&mut self, leader_idx: usize) {
        self.caches[leader_idx].coordinator_mut().consensus_mut().request_votes().ok();
        for i in 0..3 {
            if i != leader_idx {
                let req = RequestVoteRequest {
                    candidate_id: self.node_ids[leader_idx].clone(),
                    term: 1,
                    last_log_lsn: None,
                    last_log_term: 0,
                };
                self.caches[i].grpc_service_mut().request_vote(req).ok();
                let voter = self.node_ids[i].clone();
                self.caches[leader_idx].coordinator_mut().consensus_mut().receive_vote(&voter, Vote::Yes).ok();
            }
        }
        self.caches[leader_idx].coordinator_mut().consensus_mut().check_election_won();
    }

    fn replicate_to_followers(&mut self, leader_idx: usize) {
        for i in 0..3 {
            if i != leader_idx {
                let log = self.caches[leader_idx].coordinator().log();
                if let Some(last_lsn) = log.last_lsn() {
                    let entries = log.get_range(1, last_lsn);
                    let term = self.caches[leader_idx].coordinator().current_term();
                    for entry in entries {
                        let req = AppendEntriesRequest {
                            leader_id: self.node_ids[leader_idx].clone(),
                            term,
                            prev_log_lsn: 0,
                            prev_log_term: 0,
                            entries: vec![entry],
                            leader_commit: 0,
                        };
                        self.caches[i].grpc_service_mut().append_entries(req).ok();
                    }
                }
            }
        }
    }

    fn commit_on_all(&mut self, lsn: u64) {
        for cache in self.caches.iter_mut() {
            cache.coordinator_mut().log_mut().commit(lsn).ok();
        }
    }

    fn apply_on_all(&mut self) {
        for cache in self.caches.iter_mut() {
            cache.apply_pending_allocations().ok();
        }
    }

    fn verify_consistency(&self) -> bool {
        let first_hash = self.caches[0].state_hash();
        self.caches.iter().all(|c| c.state_hash() == first_hash)
    }
}

#[test]
fn consensus_kv_cache_e2e_test_consensus_kv_cache_creation() {
    let cluster = ConsensusKVCluster::new_3node();
    assert_eq!(cluster.caches.len(), 3);
    for cache in &cluster.caches {
        assert!(!cache.is_leader());
    }
}

#[test]
fn test_leader_can_allocate() {
    let mut cluster = ConsensusKVCluster::new_3node();
    cluster.elect_leader(0);
    let leader = &mut cluster.caches[0];
    assert!(leader.is_leader());
    assert!(leader.allocate("req-1", 100).is_ok());
    assert_eq!(leader.log_length(), 1);
}

#[test]
fn consensus_kv_cache_e2e_test_follower_cannot_allocate() {
    let mut cluster = ConsensusKVCluster::new_3node();
    cluster.elect_leader(0);
    let follower = &mut cluster.caches[1];
    assert!(!follower.is_leader());
    assert!(follower.allocate("req-1", 100).is_err());
}

#[test]
fn test_full_allocation_workflow() {
    let mut cluster = ConsensusKVCluster::new_3node();
    cluster.elect_leader(0);

    let alloc = cluster.caches[0].allocate("req-1", 100).unwrap();
    assert_eq!(alloc.lsn, 1);

    cluster.replicate_to_followers(0);
    for i in 1..3 {
        assert_eq!(cluster.caches[i].log_length(), 1);
    }

    cluster.commit_on_all(1);
    cluster.apply_on_all();

    assert!(cluster.verify_consistency());
    for cache in &cluster.caches {
        assert!(cache.get_allocation_status("req-1").is_some());
    }
}

#[test]
fn test_multiple_allocations_in_sequence() {
    let mut cluster = ConsensusKVCluster::new_3node();
    cluster.elect_leader(0);

    let mut lsns = vec![];
    for i in 1..=5usize {
        let alloc = cluster.caches[0].allocate(&format!("req-{}", i), i * 10).unwrap();
        lsns.push(alloc.lsn);
    }

    cluster.replicate_to_followers(0);
    for &lsn in &lsns {
        cluster.commit_on_all(lsn);
    }
    cluster.apply_on_all();

    for cache in &cluster.caches {
        for i in 1..=5usize {
            let status = cache.get_allocation_status(&format!("req-{}", i));
            assert!(status.is_some());
            assert_eq!(status.unwrap().num_blocks, i * 10);
        }
    }
    assert!(cluster.verify_consistency());
}

#[test]
fn test_lagging_follower_catches_up() {
    let mut cluster = ConsensusKVCluster::new_3node();
    cluster.elect_leader(0);

    let mut lsns = vec![];
    for i in 1..=3 {
        let alloc = cluster.caches[0].allocate(&format!("req-{}", i), 10).unwrap();
        lsns.push(alloc.lsn);
    }

    for &lsn in &lsns {
        let entry = cluster.caches[0].coordinator().log().get(lsn).unwrap();
        let req = AppendEntriesRequest {
            leader_id: "node-1".to_string(),
            term: cluster.caches[0].coordinator().current_term(),
            prev_log_lsn: 0,
            prev_log_term: 0,
            entries: vec![entry],
            leader_commit: 0,
        };
        cluster.caches[1].grpc_service_mut().append_entries(req).ok();
    }

    for &lsn in &lsns {
        let entry = cluster.caches[0].coordinator().log().get(lsn).unwrap();
        cluster.caches[2].coordinator_mut().log_mut().append(entry).ok();
    }

    for &lsn in &lsns {
        cluster.commit_on_all(lsn);
    }
    cluster.apply_on_all();

    assert!(cluster.verify_consistency());
    for cache in &cluster.caches {
        assert_eq!(cache.log_length(), 3);
    }
}

#[test]
fn test_leader_election_after_failure() {
    let mut cluster = ConsensusKVCluster::new_3node();
    cluster.elect_leader(0);
    let term1 = cluster.caches[0].current_term();

    cluster.elect_leader(1);
    let new_leader = &mut cluster.caches[1];
    let term2 = new_leader.current_term();

    assert!(term2 > term1);
    assert!(new_leader.is_leader());
    assert!(new_leader.allocate("req-after-failover", 100).is_ok());
}

#[test]
fn test_burst_allocations() {
    let mut cluster = ConsensusKVCluster::new_3node();
    cluster.elect_leader(0);

    let count = 50usize;
    for i in 1..=count {
        assert!(cluster.caches[0].allocate(&format!("req-{}", i), 10).is_ok());
    }
    assert_eq!(cluster.caches[0].log_length(), count);

    cluster.replicate_to_followers(0);
    for lsn in 1..=count {
        cluster.commit_on_all(lsn as u64);
    }
    cluster.apply_on_all();

    for cache in &cluster.caches {
        assert_eq!(cache.coordinator().applied_count(), count as u64);
    }
    assert!(cluster.verify_consistency());
}

#[test]
fn consensus_kv_cache_e2e_test_mixed_allocations_and_deallocations() {
    let mut cluster = ConsensusKVCluster::new_3node();
    cluster.elect_leader(0);

    let _alloc1 = cluster.caches[0].allocate("req-1", 100).unwrap();
    let alloc2 = cluster.caches[0].allocate("req-2", 200).unwrap();

    cluster.replicate_to_followers(0);
    cluster.commit_on_all(alloc2.lsn);
    cluster.apply_on_all();

    let dealloc_lsn = cluster.caches[0].deallocate("req-1", vec![0, 1, 2]).unwrap();

    cluster.replicate_to_followers(0);
    cluster.commit_on_all(dealloc_lsn);
    cluster.apply_on_all();

    for cache in &cluster.caches {
        assert!(cache.get_allocation_status("req-1").is_none());
        assert!(cache.get_allocation_status("req-2").is_some());
    }
    assert!(cluster.verify_consistency());
}

#[test]
fn test_log_consistency_across_cluster() {
    let mut cluster = ConsensusKVCluster::new_3node();
    cluster.elect_leader(0);

    let mut lsns = vec![];
    for i in 1..=10 {
        let alloc = cluster.caches[0].allocate(&format!("req-{}", i), 10).unwrap();
        lsns.push(alloc.lsn);
    }

    cluster.replicate_to_followers(0);

    for cache in &cluster.caches {
        assert_eq!(cache.log_length(), 10);
        for &lsn in &lsns {
            assert!(cache.coordinator().log().get(lsn).is_some());
        }
    }
}

#[test]
fn test_commit_index_advancement() {
    let mut cluster = ConsensusKVCluster::new_3node();
    cluster.elect_leader(0);

    assert_eq!(cluster.caches[0].commit_index(), 0);
    assert_eq!(cluster.caches[1].commit_index(), 0);

    let alloc = cluster.caches[0].allocate("req-1", 100).unwrap();
    cluster.caches[0].commit_allocation(alloc.lsn).ok();
    assert_eq!(cluster.caches[0].commit_index(), 1);

    cluster.replicate_to_followers(0);
    cluster.caches[1].coordinator_mut().log_mut().commit(alloc.lsn).ok();
    assert_eq!(cluster.caches[1].commit_index(), 1);
}

#[test]
fn test_empty_cluster_allocation() {
    let mut cluster = ConsensusKVCluster::new_3node();
    cluster.elect_leader(0);
    assert!(cluster.caches[0].allocate("req-empty", 0).is_ok());
}

#[test]
fn test_large_allocation() {
    let mut cluster = ConsensusKVCluster::new_3node();
    cluster.elect_leader(0);
    assert!(cluster.caches[0].allocate("req-large", 10000).is_ok());
}

#[test]
fn test_duplicate_request_ids() {
    let mut cluster = ConsensusKVCluster::new_3node();
    cluster.elect_leader(0);

    let alloc1 = cluster.caches[0].allocate("req-dup", 100).unwrap();
    let alloc2 = cluster.caches[0].allocate("req-dup", 200).unwrap();
    assert_eq!(alloc1.lsn, 1);
    assert_eq!(alloc2.lsn, 2);

    cluster.replicate_to_followers(0);
    cluster.commit_on_all(alloc2.lsn);
    cluster.apply_on_all();

    for cache in &cluster.caches {
        assert!(cache.get_allocation_status("req-dup").is_some());
    }
}
