use aegis::consensus::{QuorumConfig, Vote};
use aegis::state_machine_coordinator::StateMachineCoordinator;
use aegis::state_machine_replication::StateMachineReplication;

struct Cluster {
    coordinators: Vec<StateMachineCoordinator>,
    replications: Vec<StateMachineReplication>,
    node_ids: Vec<String>,
}

impl Cluster {
    fn new_3node() -> Self {
        let node_ids = vec!["node-1".to_string(), "node-2".to_string(), "node-3".to_string()];
        let coordinators: Vec<StateMachineCoordinator> = node_ids
            .iter()
            .map(|node_id| StateMachineCoordinator::new(QuorumConfig::new(node_id, node_ids.clone()), 100))
            .collect();
        let replications = coordinators.iter().map(|_| StateMachineReplication::new()).collect();
        Self { coordinators, replications, node_ids }
    }

    fn elect_leader(&mut self, leader_index: usize) -> bool {
        self.coordinators[leader_index].consensus_mut().request_votes().ok();
        let quorum_needed = (self.coordinators.len() / 2) + 1;
        let mut votes = 1;
        let candidate = self.node_ids[leader_index].clone();
        for (i, coordinator) in self.coordinators.iter_mut().enumerate() {
            if i != leader_index {
                coordinator.consensus_mut().receive_vote(&candidate, Vote::Yes).ok();
                votes += 1;
                if votes >= quorum_needed {
                    break;
                }
            }
        }
        self.coordinators[leader_index].consensus_mut().check_election_won()
    }

    fn register_followers(&mut self, leader_index: usize) {
        for (i, node_id) in self.node_ids.iter().enumerate() {
            if i != leader_index {
                self.replications[leader_index].register_follower(node_id).ok();
            }
        }
    }
}

#[test]
fn test_leader_registers_followers() {
    let mut cluster = Cluster::new_3node();
    cluster.elect_leader(0);
    cluster.register_followers(0);
    assert_eq!(cluster.replications[0].followers().len(), 2);
}
