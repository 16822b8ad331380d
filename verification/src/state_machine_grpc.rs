use vstd::prelude::*;
use crate::consensus::{ConsensusState, ConsensusView, Vote, QuorumConfig, unix_time_ms};
use crate::replicated_log::{EntryView, LogEntry, LogView, Lsn, entry_views, has_lsn, committable, lookup, pending_pred};
use crate::state_machine::{SmContent, SmView, blake3_hash, content_bytes, content_of, hex_of, to_hex};
use crate::state_machine_coordinator::{CoordView, CoordinatorError, StateMachineCoordinator, apply_room, next_lsn, replay};
use crate::replicated_log::LogError;
use crate::state_machine_replication::{ReplicationError, ReplicationStatus, StateMachineReplication, min_match};

verus! {

/// Leader-to-follower entry push (older form of `AppendEntriesRequest`).
#[derive(Clone, Debug)]
pub struct ReplicateEntriesRequest {
    pub leader_id: String,
    pub term: u64,
    pub entries: Vec<LogEntry>,
    pub leader_commit: u64,
}

#[derive(Clone, Debug)]
pub struct ReplicateEntriesResponse {
    pub follower_id: String,
    pub term: u64,
    pub success: bool,
    pub last_lsn: u64,
}

#[derive(Clone, Debug)]
pub struct RequestVoteRequest {
    pub candidate_id: String,
    pub term: u64,
    pub last_log_lsn: Option<u64>,
    pub last_log_term: u64,
}

#[derive(Clone, Debug)]
pub struct RequestVoteResponse {
    pub voter_id: String,
    pub term: u64,
    pub vote_granted: bool,
}

#[derive(Clone, Debug)]
pub struct AppendEntriesRequest {
    pub leader_id: String,
    pub term: u64,
    pub prev_log_lsn: u64,
    pub prev_log_term: u64,
    pub entries: Vec<LogEntry>,
    pub leader_commit: u64,
}

#[derive(Clone, Debug)]
pub struct AppendEntriesResponse {
    pub follower_id: String,
    pub term: u64,
    pub success: bool,
    pub match_lsn: u64,
}

/// State information snapshot.
#[derive(Clone, Debug)]
pub struct StateInfo {
    pub node_id: String,
    pub is_leader: bool,
    pub current_term: u64,
    pub log_len: usize,
    pub commit_index: u64,
    pub last_applied: u64,
    pub applied_count: u64,
    pub state_hash: String,
}

/// Append each entry in turn while the log has room; entries that do not fit are dropped.
pub open spec fn append_all(l: LogView, es: Seq<EntryView>) -> LogView
    decreases es.len(),
{
    if es.len() == 0 {
        l
    } else {
        let l0 = append_all(l, es.drop_last());
        if l0.entries.len() < l0.max_entries {
            LogView { entries: l0.entries.push(es.last()), ..l0 }
        } else {
            l0
        }
    }
}

/// Append each entry whose LSN the log does not hold yet, while the log has room.
pub open spec fn append_new(l: LogView, es: Seq<EntryView>) -> LogView
    decreases es.len(),
{
    if es.len() == 0 {
        l
    } else {
        let l0 = append_new(l, es.drop_last());
        if !has_lsn(l0.entries, es.last().lsn) && l0.entries.len() < l0.max_entries {
            LogView { entries: l0.entries.push(es.last()), ..l0 }
        } else {
            l0
        }
    }
}

/// LSN of the last of `es`, or `dflt` when there is none.
pub open spec fn last_lsn_or(es: Seq<EntryView>, dflt: u64) -> u64 {
    if es.len() == 0 { dflt } else { es.last().lsn }
}

/// Commit to the leader's commit index, bounded by the last LSN received, when it is
/// above ours and the log can commit it.
pub open spec fn follower_commit(l: LogView, leader_commit: u64, last: u64) -> LogView {
    let nc = if leader_commit < last { leader_commit } else { last };
    if leader_commit > l.commit_index && nc >= l.commit_index && committable(l.entries, nc) {
        LogView { commit_index: nc, ..l }
    } else {
        l
    }
}

/// Effect of a follower's commit-and-apply step on (log, state content): the pending
/// entries are applied when the applied counter has room for them.
pub open spec fn follow_effect(v: CoordView, leader_commit: u64, last: u64, log2: LogView, c2: SmContent) -> bool {
    if leader_commit > v.log.commit_index
        && apply_room(CoordView { log: follower_commit(v.log, leader_commit, last), ..v }) {
        let l1 = follower_commit(v.log, leader_commit, last);
        let pend = l1.entries.filter(pending_pred(l1.last_applied, l1.commit_index));
        let rp = replay(content_of(v.sm), l1.last_applied, pend);
        &&& log2 == (LogView { last_applied: rp.1, ..l1 })
        &&& c2 == rp.0
    } else {
        &&& log2 == (if leader_commit > v.log.commit_index { follower_commit(v.log, leader_commit, last) } else { v.log })
        &&& c2 == content_of(v.sm)
    }
}

/// RPC handler of the consensus state machine: owns the coordinator and the
/// follower tracking.
pub struct StateMachineGrpcService {
    coordinator: StateMachineCoordinator,
    replication: StateMachineReplication,
}

impl StateMachineGrpcService {
    pub closed spec fn coord(&self) -> StateMachineCoordinator {
        self.coordinator
    }

    pub closed spec fn repl(&self) -> StateMachineReplication {
        self.replication
    }

    pub open spec fn wf(&self) -> bool {
        &&& self.coord().wf()
        &&& StateMachineReplication::wf_view(self.repl()@)
    }

    /// Serve `coordinator` with the follower tracking `replication`.
    pub fn new(coordinator: StateMachineCoordinator, replication: StateMachineReplication) -> (r: Self)
        ensures
            r.coord() == coordinator,
            r.repl() == replication,
    {
        StateMachineGrpcService { coordinator, replication }
    }

    fn commit_and_apply(coordinator: &mut StateMachineCoordinator, leader_commit: u64, last: u64)
        requires
            old(coordinator).wf(),
        ensures
            final(coordinator).wf(),
            final(coordinator).config_spec() == old(coordinator).config_spec(),
            final(coordinator)@.consensus == old(coordinator)@.consensus,
            follow_effect(old(coordinator)@, leader_commit, last, final(coordinator)@.log, content_of(final(coordinator)@.sm)),
    {
        if leader_commit > coordinator.commit_index() {
            let new_commit = if leader_commit < last { leader_commit } else { last };
            let _ = coordinator.commit_to_lsn(new_commit);
            let pending = coordinator.log().pending_entries();
            let room = (coordinator.applied_count() as u128) + (pending.len() as u128) <= u64::MAX as u128;
            if room {
                let _ = coordinator.apply_pending();
            }
        }
    }

    /// Take entries pushed by a leader: entries whose LSN is new are appended while
    /// there is room, then the log commits up to the leader's commit index (bounded
    /// by the last LSN sent) and applies what became committed.
    pub fn replicate_entries(&mut self, req: ReplicateEntriesRequest) -> (r: Result<ReplicateEntriesResponse, CoordinatorError>)
        requires
            old(self).wf(),
        ensures
            final(self).wf(),
            final(self).repl() == old(self).repl(),
            final(self).coord().config_spec() == old(self).coord().config_spec(),
            final(self).coord()@.consensus == old(self).coord()@.consensus,
            ({
                let v = old(self).coord()@;
                let es = entry_views(req.entries@);
                let l1 = append_new(v.log, es);
                let last = last_lsn_or(es, 0);
                &&& r is Ok
                &&& r->Ok_0.follower_id@ == v.consensus.node_id
                &&& r->Ok_0.term == v.consensus.term
                &&& r->Ok_0.success
                &&& r->Ok_0.last_lsn == last
                &&& follow_effect(CoordView { log: l1, ..v }, req.leader_commit, last,
                        final(self).coord()@.log, content_of(final(self).coord()@.sm))
            }),
    {
        let my_id = self.coordinator.consensus().config().node_id().clone();
        let ghost es = entry_views(req.entries@);
        let ghost v0 = self.coordinator@;
        let entries = req.entries;
        let mut last_lsn: u64 = 0;
        let mut i: usize = 0;
        while i < entries.len()
            invariant
                i <= entries.len(),
                es == entry_views(entries@),
                self.wf(),
                self.repl() == old(self).repl(),
                self.coord().config_spec() == old(self).coord().config_spec(),
                self.coordinator@ == (CoordView { log: append_new(v0.log, es.take(i as int)), ..v0 }),
                last_lsn == last_lsn_or(es.take(i as int), 0),
            decreases entries.len() - i,
        {
            let entry = entries[i].duplicate();
            assert(es.take(i as int + 1).drop_last() == es.take(i as int));
            last_lsn = entry.lsn;
            if !self.coordinator.log().contains_lsn(entry.lsn) {
                let _ = self.coordinator.log_mut().append(entry);
            }
            i = i + 1;
        }
        assert(es.take(entries.len() as int) == es);
        Self::commit_and_apply(&mut self.coordinator, req.leader_commit, last_lsn);
        Ok(ReplicateEntriesResponse {
            follower_id: my_id,
            term: self.coordinator.current_term(),
            success: true,
            last_lsn,
        })
    }

    /// Vote for a candidate: a request from an older term is refused; a newer term
    /// is adopted (a leader steps down first, and the ballots of the old term are
    /// cleared); the candidate's `Yes` is recorded and the vote is granted when the
    /// candidate is a member. The answer carries the voter's term after the request.
    pub fn request_vote(&mut self, req: RequestVoteRequest) -> (r: Result<RequestVoteResponse, CoordinatorError>)
        requires
            old(self).wf(),
        ensures
            final(self).wf(),
            final(self).repl() == old(self).repl(),
            final(self).coord().config_spec() == old(self).coord().config_spec(),
            ({
                let v = old(self).coord()@;
                let member = old(self).coord().config_spec().node_set().contains(req.candidate_id@);
                &&& r is Ok
                &&& r->Ok_0.voter_id@ == v.consensus.node_id
                &&& req.term < v.consensus.term ==> !r->Ok_0.vote_granted && r->Ok_0.term == v.consensus.term
                    && final(self).coord()@ == v
                &&& req.term >= v.consensus.term ==> {
                    let adopted = if req.term > v.consensus.term {
                        ConsensusView {
                            state: if v.consensus.state == ConsensusState::Leader {
                                ConsensusState::Follower
                            } else {
                                v.consensus.state
                            },
                            term: req.term,
                            voted_for: None,
                            ballots: crate::consensus::ballots_reset(v.consensus.ballots),
                            ..v.consensus
                        }
                    } else {
                        v.consensus
                    };
                    &&& r->Ok_0.term == req.term
                    &&& r->Ok_0.vote_granted == member
                    &&& final(self).coord()@ == (CoordView {
                        consensus: ConsensusView {
                            ballots: if member {
                                crate::consensus::ballots_set(adopted.ballots, req.candidate_id@, Vote::Yes)
                            } else {
                                adopted.ballots
                            },
                            ..adopted
                        },
                        ..v
                    })
                }
            }),
    {
        let my_id = self.coordinator.consensus().config().node_id().clone();
        let current_term = self.coordinator.current_term();
        if req.term < current_term {
            return Ok(RequestVoteResponse { voter_id: my_id, term: current_term, vote_granted: false });
        }
        if req.term > current_term {
            if self.coordinator.is_leader() {
                let _ = self.coordinator.consensus_mut().become_follower();
            }
            let _ = self.coordinator.consensus_mut().advance_term(req.term);
        }
        let vote_result = self.coordinator.consensus_mut().receive_vote(req.candidate_id.as_str(), Vote::Yes);
        Ok(RequestVoteResponse {
            voter_id: my_id,
            term: self.coordinator.current_term(),
            vote_granted: vote_result.is_ok(),
        })
    }

    /// Heartbeat and log replication from a leader, received at `now_ms`: a request from an older term is
    /// refused; a newer term makes a leader step down; the heartbeat is recorded; the
    /// request is refused when `prev_log_lsn` is set and no entry carries it;
    /// otherwise its entries are appended while there is room, then the log commits
    /// up to the leader's commit index (bounded by the last LSN received) and applies
    /// what became committed.
    pub fn append_entries_at(&mut self, req: AppendEntriesRequest, now_ms: u64) -> (r: Result<AppendEntriesResponse, CoordinatorError>)
        requires
            old(self).wf(),
        ensures
            final(self).wf(),
            final(self).repl() == old(self).repl(),
            final(self).coord().config_spec() == old(self).coord().config_spec(),
            ({
                let v = old(self).coord()@;
                let f = final(self).coord()@;
                let es = entry_views(req.entries@);
                &&& r is Ok
                &&& r->Ok_0.follower_id@ == v.consensus.node_id
                &&& r->Ok_0.term == v.consensus.term
                &&& req.term < v.consensus.term ==> !r->Ok_0.success && r->Ok_0.match_lsn == 0 && f == v
                &&& req.term >= v.consensus.term ==> {
                    &&& f.consensus == (ConsensusView {
                        state: if req.term > v.consensus.term && v.consensus.state == ConsensusState::Leader {
                            ConsensusState::Follower
                        } else {
                            v.consensus.state
                        },
                        last_heartbeat: now_ms,
                        ..v.consensus
                    })
                    &&& (req.prev_log_lsn > 0 && !has_lsn(v.log.entries, req.prev_log_lsn)) ==>
                        !r->Ok_0.success && r->Ok_0.match_lsn == 0 && f.log == v.log && f.sm == v.sm
                    &&& !(req.prev_log_lsn > 0 && !has_lsn(v.log.entries, req.prev_log_lsn)) ==> {
                        let last = last_lsn_or(es, req.prev_log_lsn);
                        &&& r->Ok_0.success
                        &&& r->Ok_0.match_lsn == last
                        &&& follow_effect(CoordView { log: append_all(v.log, es), ..v }, req.leader_commit, last,
                                f.log, content_of(f.sm))
                    }
                }
            }),
    {
        let my_id = self.coordinator.consensus().config().node_id().clone();
        let current_term = self.coordinator.current_term();
        if req.term < current_term {
            return Ok(AppendEntriesResponse { follower_id: my_id, term: current_term, success: false, match_lsn: 0 });
        }
        if req.term > current_term {
            if self.coordinator.is_leader() {
                let _ = self.coordinator.consensus_mut().become_follower();
            }
        }
        self.coordinator.consensus_mut().heartbeat_received_at(now_ms);
        if req.prev_log_lsn > 0 {
            if !self.coordinator.log().contains_lsn(req.prev_log_lsn) {
                return Ok(AppendEntriesResponse { follower_id: my_id, term: current_term, success: false, match_lsn: 0 });
            }
        }
        let ghost es = entry_views(req.entries@);
        let ghost v0 = self.coordinator@;
        let entries = req.entries;
        let mut last_lsn: u64 = req.prev_log_lsn;
        let mut i: usize = 0;
        while i < entries.len()
            invariant
                i <= entries.len(),
                es == entry_views(entries@),
                self.wf(),
                self.repl() == old(self).repl(),
                self.coord().config_spec() == old(self).coord().config_spec(),
                self.coordinator@ == (CoordView { log: append_all(v0.log, es.take(i as int)), ..v0 }),
                last_lsn == last_lsn_or(es.take(i as int), req.prev_log_lsn),
            decreases entries.len() - i,
        {
            let entry = entries[i].duplicate();
            assert(es.take(i as int + 1).drop_last() == es.take(i as int));
            last_lsn = entry.lsn;
            let _ = self.coordinator.log_mut().append(entry);
            i = i + 1;
        }
        assert(es.take(entries.len() as int) == es);
        Self::commit_and_apply(&mut self.coordinator, req.leader_commit, last_lsn);
        Ok(AppendEntriesResponse { follower_id: my_id, term: current_term, success: true, match_lsn: last_lsn })
    }

    /// Heartbeat and log replication from a leader: a request from an older term is
    /// refused; a newer term makes a leader step down; the heartbeat is recorded at the clock's reading; the
    /// request is refused when `prev_log_lsn` is set and no entry carries it;
    /// otherwise its entries are appended while there is room, then the log commits
    /// up to the leader's commit index (bounded by the last LSN received) and applies
    /// what became committed.
    pub fn append_entries(&mut self, req: AppendEntriesRequest) -> (r: Result<AppendEntriesResponse, CoordinatorError>)
        requires
            old(self).wf(),
        ensures
            final(self).wf(),
            final(self).repl() == old(self).repl(),
            final(self).coord().config_spec() == old(self).coord().config_spec(),
            ({
                let v = old(self).coord()@;
                let f = final(self).coord()@;
                let es = entry_views(req.entries@);
                &&& r is Ok
                &&& r->Ok_0.follower_id@ == v.consensus.node_id
                &&& r->Ok_0.term == v.consensus.term
                &&& req.term < v.consensus.term ==> !r->Ok_0.success && r->Ok_0.match_lsn == 0 && f == v
                &&& req.term >= v.consensus.term ==> {
                    &&& f.consensus == (ConsensusView {
                        state: if req.term > v.consensus.term && v.consensus.state == ConsensusState::Leader {
                            ConsensusState::Follower
                        } else {
                            v.consensus.state
                        },
                        last_heartbeat: f.consensus.last_heartbeat,
                        ..v.consensus
                    })
                    &&& (req.prev_log_lsn > 0 && !has_lsn(v.log.entries, req.prev_log_lsn)) ==>
                        !r->Ok_0.success && r->Ok_0.match_lsn == 0 && f.log == v.log && f.sm == v.sm
                    &&& !(req.prev_log_lsn > 0 && !has_lsn(v.log.entries, req.prev_log_lsn)) ==> {
                        let last = last_lsn_or(es, req.prev_log_lsn);
                        &&& r->Ok_0.success
                        &&& r->Ok_0.match_lsn == last
                        &&& follow_effect(CoordView { log: append_all(v.log, es), ..v }, req.leader_commit, last,
                                f.log, content_of(f.sm))
                    }
                }
            }),
    {
        let now = unix_time_ms();
        self.append_entries_at(req, now)
    }

    /// Leader only: append an allocation.
    pub fn allocate(&mut self, request_id: &str, num_blocks: usize) -> (r: Result<u64, CoordinatorError>)
        requires
            old(self).wf(),
            next_lsn(old(self).coord()@.log) <= u64::MAX,
        ensures
            final(self).wf(),
            final(self).repl() == old(self).repl(),
            final(self).coord().config_spec() == old(self).coord().config_spec(),
            !(old(self).coord()@.consensus.state == ConsensusState::Leader) ==> r == Err::<u64, CoordinatorError>(CoordinatorError::NotLeader)
                && final(self).coord()@ == old(self).coord()@,
            old(self).coord()@.consensus.state == ConsensusState::Leader && old(self).coord()@.log.entries.len() < old(self).coord()@.log.max_entries
                ==> r == Ok::<u64, CoordinatorError>(next_lsn(old(self).coord()@.log) as u64)
                && final(self).coord()@.log.entries.drop_last() == old(self).coord()@.log.entries,
            old(self).coord()@.consensus.state == ConsensusState::Leader && old(self).coord()@.log.entries.len() >= old(self).coord()@.log.max_entries
                ==> r is Err && final(self).coord()@ == old(self).coord()@,
    {
        if !self.coordinator.is_leader() {
            return Err(CoordinatorError::NotLeader);
        }
        self.coordinator.allocate(request_id, num_blocks)
    }

    /// Leader only: append a deallocation.
    pub fn deallocate(&mut self, request_id: &str, blocks: Vec<usize>) -> (r: Result<u64, CoordinatorError>)
        requires
            old(self).wf(),
            next_lsn(old(self).coord()@.log) <= u64::MAX,
        ensures
            final(self).wf(),
            final(self).repl() == old(self).repl(),
            final(self).coord().config_spec() == old(self).coord().config_spec(),
            !(old(self).coord()@.consensus.state == ConsensusState::Leader) ==> r == Err::<u64, CoordinatorError>(CoordinatorError::NotLeader)
                && final(self).coord()@ == old(self).coord()@,
            old(self).coord()@.consensus.state == ConsensusState::Leader && old(self).coord()@.log.entries.len() < old(self).coord()@.log.max_entries
                ==> r == Ok::<u64, CoordinatorError>(next_lsn(old(self).coord()@.log) as u64)
                && final(self).coord()@.log.entries.drop_last() == old(self).coord()@.log.entries,
            old(self).coord()@.consensus.state == ConsensusState::Leader && old(self).coord()@.log.entries.len() >= old(self).coord()@.log.max_entries
                ==> r is Err && final(self).coord()@ == old(self).coord()@,
    {
        if !self.coordinator.is_leader() {
            return Err(CoordinatorError::NotLeader);
        }
        self.coordinator.deallocate(request_id, blocks)
    }

    /// Snapshot of this node's state.
    pub fn get_state_info(&self) -> (r: StateInfo)
        ensures
            ({
                let v = self.coord()@;
                &&& r.node_id@ == v.consensus.node_id
                &&& r.is_leader == (v.consensus.state == ConsensusState::Leader)
                &&& r.current_term == v.consensus.term
                &&& r.log_len == v.log.entries.len()
                &&& r.commit_index == v.log.commit_index
                &&& r.last_applied == v.log.last_applied
                &&& r.applied_count == v.sm.applied_count
                &&& r.state_hash@ == hex_of(blake3_hash(content_bytes(content_of(v.sm))))
            }),
    {
        let h = self.coordinator.state_hash();
        StateInfo {
            node_id: self.coordinator.consensus().config().node_id().clone(),
            is_leader: self.coordinator.is_leader(),
            current_term: self.coordinator.current_term(),
            log_len: self.coordinator.log_len(),
            commit_index: self.coordinator.commit_index(),
            last_applied: self.coordinator.last_applied(),
            applied_count: self.coordinator.applied_count(),
            state_hash: to_hex(&h),
        }
    }

    /// Commit the log up to the least match LSN of the followers when that is above
    /// its commit index.
    pub fn advance_commit_index(&mut self) -> (r: Result<(), ReplicationError>)
        requires
            old(self).wf(),
        ensures
            final(self).wf(),
            final(self).repl() == old(self).repl(),
            final(self).coord().config_spec() == old(self).coord().config_spec(),
            ({
                let m = min_match(old(self).repl()@);
                let c0 = old(self).coord()@;
                &&& m <= c0.log.commit_index ==> r is Ok && final(self).coord()@ == c0
                &&& m > c0.log.commit_index && !committable(c0.log.entries, m) ==> r == Err::<(), ReplicationError>(
                    ReplicationError::Log(LogError::NoEntry { lsn: m }),
                ) && final(self).coord()@ == c0
                &&& m > c0.log.commit_index && committable(c0.log.entries, m) ==> r is Ok
                    && final(self).coord()@ == (CoordView { log: LogView { commit_index: m, ..c0.log }, ..c0 })
            }),
    {
        let current = self.coordinator.commit_index();
        let m = self.replication.min_match_lsn();
        if m > current {
            match self.coordinator.commit_to_lsn(m) {
                Ok(()) => Ok(()),
                Err(CoordinatorError::Log(e)) => Err(ReplicationError::Log(e)),
                Err(CoordinatorError::NotLeader) => Err(ReplicationError::Log(LogError::NoEntry { lsn: m })),
            }
        } else {
            Ok(())
        }
    }

    /// Replication progress, on the leader only.
    pub fn get_replication_status(&self) -> (r: Option<ReplicationStatus>)
        ensures
            (self.coord()@.consensus.state == ConsensusState::Leader) == r is Some,
    {
        if self.coordinator.is_leader() {
            Some(self.replication.replication_status(self.coordinator.log()))
        } else {
            None
        }
    }

    /// The coordinator.
    pub fn coordinator(&self) -> (r: &StateMachineCoordinator)
        ensures
            *r == self.coord(),
    {
        &self.coordinator
    }

    /// The coordinator, for changes.
    pub fn coordinator_mut(&mut self) -> (r: &mut StateMachineCoordinator)
        ensures
            *r == old(self).coord(),
            final(self).coord() == *final(r),
            final(self).repl() == old(self).repl(),
    {
        &mut self.coordinator
    }

    /// The follower tracking.
    pub fn replication(&self) -> (r: &StateMachineReplication)
        ensures
            *r == self.repl(),
    {
        &self.replication
    }

    /// The follower tracking, for changes.
    pub fn replication_mut(&mut self) -> (r: &mut StateMachineReplication)
        ensures
            *r == old(self).repl(),
            final(self).repl() == *final(r),
            final(self).coord() == old(self).coord(),
    {
        &mut self.replication
    }
}

} // verus!
