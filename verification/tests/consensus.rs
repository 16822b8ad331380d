use aegis::consensus::{ConsensusState, QuorumConfig, QuorumConsensus, Vote};

fn create_quorum(node_id: &str, size: usize) -> QuorumConfig {
    let mut nodes = vec![node_id.to_string()];
    for i in 2..=size {
        nodes.push(format!("node-{}", i));
    }
    QuorumConfig::new(node_id, nodes)
}

fn summary_value(summary: &[(String, String)], key: &str) -> Option<String> {
    summary.iter().find(|(k, _)| k == key).map(|(_, v)| v.clone())
}

#[test]
fn test_quorum_config_creation() {
    let config = create_quorum("node-1", 3);
    assert_eq!(config.total_nodes(), 3);
    assert_eq!(config.quorum_size(), 2);
    assert!(config.contains_node("node-1"));
}

#[test]
fn test_quorum_size_calculation() {
    assert_eq!(create_quorum("node-1", 3).quorum_size(), 2);
    assert_eq!(create_quorum("node-1", 5).quorum_size(), 3);
    assert_eq!(create_quorum("node-1", 7).quorum_size(), 4);
}

#[test]
fn test_has_quorum() {
    let config = create_quorum("node-1", 3);
    assert!(!config.has_quorum(1));
    assert!(config.has_quorum(2));
    assert!(config.has_quorum(3));
}

#[test]
fn test_consensus_creation() {
    let config = create_quorum("node-1", 3);
    let consensus = QuorumConsensus::new(config);

    assert_eq!(consensus.state(), ConsensusState::Follower);
    assert_eq!(consensus.current_term(), 0);
}

#[test]
fn test_advance_term() {
    let config = create_quorum("node-1", 3);
    let mut consensus = QuorumConsensus::new(config);

    assert!(consensus.advance_term(1).is_ok());
    assert_eq!(consensus.current_term(), 1);

    assert!(consensus.advance_term(2).is_ok());
    assert_eq!(consensus.current_term(), 2);

    // Cannot go backwards
    assert!(consensus.advance_term(1).is_err());
}

#[test]
fn test_request_votes() {
    let config = create_quorum("node-1", 3);
    let mut consensus = QuorumConsensus::new(config);

    assert!(consensus.request_votes().is_ok());
    assert_eq!(consensus.state(), ConsensusState::Candidate);
    assert_eq!(consensus.current_term(), 1);
    assert_eq!(consensus.count_yes_votes(), 1); // Voted for ourselves
}

#[test]
fn test_receive_votes() {
    let config = create_quorum("node-1", 3);
    let mut consensus = QuorumConsensus::new(config);

    assert!(consensus.request_votes().is_ok());

    assert!(consensus.receive_vote("node-2", Vote::Yes).is_ok());
    assert_eq!(consensus.count_yes_votes(), 2);

    assert!(consensus.receive_vote("node-3", Vote::No).is_ok());
    assert_eq!(consensus.count_yes_votes(), 2);
}

#[test]
fn test_election_won() {
    let config = create_quorum("node-1", 3);
    let mut consensus = QuorumConsensus::new(config);

    assert!(consensus.request_votes().is_ok());
    assert!(!consensus.check_election_won()); // Only 1 vote, need 2

    consensus.receive_vote("node-2", Vote::Yes).ok();
    assert!(consensus.check_election_won()); // 2 votes = quorum
    assert_eq!(consensus.state(), ConsensusState::Leader);
}

#[test]
fn test_split_brain_prevention() {
    let config = create_quorum("node-1", 5);
    let mut consensus = QuorumConsensus::new(config);

    assert!(consensus.request_votes().is_ok());

    consensus.receive_vote("node-2", Vote::No).ok();
    consensus.receive_vote("node-3", Vote::No).ok();

    consensus.receive_vote("node-4", Vote::Yes).ok();
    consensus.receive_vote("node-5", Vote::Yes).ok();

    // 3 yes votes (1 from self + 2 from peers) of 5: a quorum
    assert!(consensus.check_election_won());
}

#[test]
fn test_become_leader() {
    let config = create_quorum("node-1", 3);
    let mut consensus = QuorumConsensus::new(config);

    assert!(consensus.request_votes().is_ok());
    consensus.receive_vote("node-2", Vote::Yes).ok();
    consensus.check_election_won();

    assert_eq!(consensus.state(), ConsensusState::Leader);
}

#[test]
fn test_become_follower() {
    let config = create_quorum("node-1", 3);
    let mut consensus = QuorumConsensus::new(config);

    assert!(consensus.request_votes().is_ok());
    assert!(consensus.become_follower().is_ok());
    assert_eq!(consensus.state(), ConsensusState::Follower);
}

#[test]
fn test_vote_summary() {
    let config = create_quorum("node-1", 3);
    let mut consensus = QuorumConsensus::new(config);

    assert!(consensus.request_votes().is_ok());
    consensus.receive_vote("node-2", Vote::Yes).ok();
    consensus.receive_vote("node-3", Vote::No).ok();

    let summary = consensus.get_vote_summary();
    assert_eq!(summary.len(), 3);
    assert_eq!(summary_value(&summary, "node-1").unwrap(), "yes");
    assert_eq!(summary_value(&summary, "node-2").unwrap(), "yes");
    assert_eq!(summary_value(&summary, "node-3").unwrap(), "no");
}

#[test]
fn test_unknown_node_vote() {
    let config = create_quorum("node-1", 3);
    let mut consensus = QuorumConsensus::new(config);

    let result = consensus.receive_vote("unknown-node", Vote::Yes);
    assert!(result.is_err());
}

#[test]
fn test_term_ordering() {
    let config = create_quorum("node-1", 3);
    let mut consensus = QuorumConsensus::new(config);

    for term in 1..=5 {
        assert!(consensus.advance_term(term).is_ok());
        assert_eq!(consensus.current_term(), term);
    }
}

#[test]
fn test_heartbeat_timeout_at_explicit_times() {
    let config = create_quorum("node-1", 3);
    let mut consensus = QuorumConsensus::new(config);

    consensus.heartbeat_received_at(1_000);
    assert!(!consensus.election_timeout_elapsed_at(1_050, 100));
    assert!(!consensus.election_timeout_elapsed_at(1_100, 100));
    assert!(consensus.election_timeout_elapsed_at(1_101, 100));
}

#[test]
fn test_duplicate_nodes_collapse() {
    let config = QuorumConfig::new(
        "node-1",
        vec!["node-1".to_string(), "node-2".to_string(), "node-2".to_string()],
    );
    assert_eq!(config.total_nodes(), 2);
    assert_eq!(config.quorum_size(), 2);
}

#[test]
fn test_stale_term_rejected_then_election_moves_on() {
    let config = create_quorum("node-1", 3);
    let mut consensus = QuorumConsensus::new(config);
    consensus.advance_term(5).unwrap();
    assert!(consensus.advance_term(5).is_err());
    consensus.request_votes().unwrap();
    assert_eq!(consensus.current_term(), 6);
    assert_eq!(consensus.state(), ConsensusState::Candidate);
}
