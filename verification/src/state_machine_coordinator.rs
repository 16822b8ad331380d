use vstd::prelude::*;
use crate::consensus::{ConsensusState, ConsensusView, QuorumConfig, QuorumConsensus};
use crate::replicated_log::{
    EntryView, LogEntry, LogError, LogOperation, LogView, OpView, ReplicatedLog, Lsn, entry_views, has_lsn, committable,
    pending_pred,
};
use crate::state_machine::{
    AllocationRecord, OperationResult, PeerRecord, SmContent, SmView, StateMachine, alloc_ids, alloc_views,
    apply_op, blake3_hash, content_bytes, content_of, peer_ids, peer_views, sm_wf,
};

verus! {

/// Why the coordinator refused a request.
#[derive(Clone, Copy, Debug, PartialEq, Eq, Structural)]
pub enum CoordinatorError {
    /// Only the leader may append to the log.
    NotLeader,
    /// The log refused the operation.
    Log(LogError),
}

/// What the state hash covers, as a function of content alone.
pub open spec fn apply_content(c: SmContent, op: OpView) -> (SmContent, OperationResult) {
    match op {
        OpView::Allocate { request_id, num_blocks } => {
            if c.allocs.map_values(|a: (Seq<char>, usize)| a.0).contains(request_id) {
                (c, OperationResult::AlreadyApplied)
            } else {
                (SmContent {
                    allocs: c.allocs.push((request_id, num_blocks)),
                    applied_count: (c.applied_count + 1) as u64,
                    ..c
                }, OperationResult::Success)
            }
        },
        OpView::Deallocate { request_id, blocks } => {
            let ids = c.allocs.map_values(|a: (Seq<char>, usize)| a.0);
            if ids.contains(request_id) {
                (SmContent {
                    allocs: c.allocs.remove(ids.index_of(request_id)),
                    applied_count: (c.applied_count + 1) as u64,
                    ..c
                }, OperationResult::Success)
            } else {
                (c, OperationResult::AlreadyApplied)
            }
        },
        OpView::RegisterPeer { peer_id, peer_addr, capacity } => {
            if c.peers.map_values(|p: (Seq<char>, Seq<char>, usize)| p.0).contains(peer_id) {
                (c, OperationResult::AlreadyApplied)
            } else {
                (SmContent {
                    peers: c.peers.push((peer_id, peer_addr, capacity)),
                    applied_count: (c.applied_count + 1) as u64,
                    ..c
                }, OperationResult::Success)
            }
        },
    }
}

/// Applying to the full state and then taking the content is applying to the content.
pub proof fn lemma_apply_content(v: SmView, op: OpView, t: u64)
    ensures
        content_of(apply_op(v, op, t).0) == apply_content(content_of(v), op).0,
        apply_op(v, op, t).1 == apply_content(content_of(v), op).1,
{
    let c = content_of(v);
    assert(c.allocs.map_values(|a: (Seq<char>, usize)| a.0) =~= alloc_ids(v.allocations));
    assert(c.peers.map_values(|p: (Seq<char>, Seq<char>, usize)| p.0) =~= peer_ids(v.peers));
    match op {
        OpView::Allocate { request_id, num_blocks } => {
            if !alloc_ids(v.allocations).contains(request_id) {
                assert(content_of(apply_op(v, op, t).0).allocs =~= c.allocs.push((request_id, num_blocks)));
            }
        },
        OpView::Deallocate { request_id, blocks } => {
            if alloc_ids(v.allocations).contains(request_id) {
                let k = alloc_ids(v.allocations).index_of(request_id);
                assert(content_of(apply_op(v, op, t).0).allocs =~= c.allocs.remove(k));
            }
        },
        OpView::RegisterPeer { peer_id, peer_addr, capacity } => {
            if !peer_ids(v.peers).contains(peer_id) {
                assert(content_of(apply_op(v, op, t).0).peers =~= c.peers.push((peer_id, peer_addr, capacity)));
            }
        },
    }
}

/// Result of applying pending entries in order: the content reached, the applied
/// index reached, the number of entries that changed the state, and whether every
/// change could be recorded in the log (an entry whose LSN is below the applied
/// index stops the run after changing the state).
pub open spec fn replay(c: SmContent, applied: Lsn, es: Seq<EntryView>) -> (SmContent, Lsn, nat, bool)
    decreases es.len(),
{
    if es.len() == 0 {
        (c, applied, 0, true)
    } else {
        let (c1, a1, n1, ok1) = replay(c, applied, es.drop_last());
        if !ok1 {
            (c1, a1, n1, false)
        } else {
            let e = es.last();
            let (c2, res) = apply_content(c1, e.operation);
            if res == OperationResult::Success {
                if e.lsn < a1 {
                    (c2, a1, n1, false)
                } else {
                    (c2, e.lsn, n1 + 1, true)
                }
            } else {
                (c1, a1, n1, true)
            }
        }
    }
}

/// The entries a log still has to apply: committed, not yet applied.
pub open spec fn pending_of(l: LogView) -> Seq<EntryView> {
    l.entries.filter(pending_pred(l.last_applied, l.commit_index))
}

/// The applied counter has room for one more count per pending entry.
pub open spec fn apply_room(v: CoordView) -> bool {
    v.sm.applied_count + pending_of(v.log).len() <= u64::MAX
}

/// Replicas agree: two nodes whose state machines hold the same content and whose
/// logs are the same reach, by applying their pending entries, the same content, the
/// same applied index and the same state hash.
pub proof fn lemma_replicas_agree(x: CoordView, y: CoordView)
    requires
        content_of(x.sm) == content_of(y.sm),
        x.log == y.log,
    ensures
        ({
            let rx = replay(content_of(x.sm), x.log.last_applied,
                x.log.entries.filter(pending_pred(x.log.last_applied, x.log.commit_index)));
            let ry = replay(content_of(y.sm), y.log.last_applied,
                y.log.entries.filter(pending_pred(y.log.last_applied, y.log.commit_index)));
            &&& rx == ry
            &&& blake3_hash(content_bytes(rx.0)) == blake3_hash(content_bytes(ry.0))
        }),
{
}

pub proof fn lemma_replay_count_bounded(c: SmContent, applied: Lsn, es: Seq<EntryView>)
    ensures
        replay(c, applied, es).2 <= es.len(),
    decreases es.len(),
{
    if es.len() > 0 {
        lemma_replay_count_bounded(c, applied, es.drop_last());
    }
}

/// Once a replay stops, the entries after the stop change nothing.
pub proof fn lemma_replay_stops(c: SmContent, applied: Lsn, es: Seq<EntryView>, k: int)
    requires
        0 <= k <= es.len(),
        !replay(c, applied, es.take(k)).3,
    ensures
        replay(c, applied, es) == replay(c, applied, es.take(k)),
    decreases es.len(),
{
    if k == es.len() {
        assert(es.take(k) == es);
    } else {
        assert(es.drop_last().take(k) == es.take(k));
        lemma_replay_stops(c, applied, es.drop_last(), k);
    }
}

/// Abstract coordinator.
pub struct CoordView {
    pub consensus: ConsensusView,
    pub log: LogView,
    pub sm: SmView,
}

/// Coordinator: consensus, replicated log and state machine together.
pub struct StateMachineCoordinator {
    consensus: QuorumConsensus,
    log: ReplicatedLog,
    state_machine: StateMachine,
}

impl View for StateMachineCoordinator {
    type V = CoordView;

    closed spec fn view(&self) -> CoordView {
        CoordView { consensus: self.consensus@, log: self.log@, sm: self.state_machine@ }
    }
}

/// The next LSN after the last entry (1 for an empty log).
pub open spec fn next_lsn(log: LogView) -> int {
    if log.entries.len() == 0 {
        1
    } else {
        log.entries.last().lsn + 1
    }
}

/// Effect of a leader appending `op` at the next LSN.
pub open spec fn leader_append(v: CoordView, op: OpView, e: EntryView) -> bool {
    &&& e.lsn == next_lsn(v.log)
    &&& e.term == v.consensus.term
    &&& e.operation == op
}

impl StateMachineCoordinator {
    pub closed spec fn wf(&self) -> bool {
        &&& self.consensus.wf()
        &&& sm_wf(self.state_machine@)
    }

    /// The configuration.
    pub closed spec fn config_spec(&self) -> QuorumConfig {
        self.consensus.config_spec()
    }

    /// A follower at term 0 with an empty log holding at most `log_size` entries and
    /// an empty state machine.
    pub fn new(config: QuorumConfig, log_size: usize) -> (r: Self)
        requires
            config.wf(),
        ensures
            r.wf(),
            r.config_spec() == config,
            r@.consensus.node_id == config.id(),
            r@.consensus.state == ConsensusState::Follower,
            r@.consensus.term == 0,
            r@.log.entries.len() == 0,
            r@.log.commit_index == 0,
            r@.log.last_applied == 0,
            r@.log.max_entries == log_size,
            r@.sm.allocations.len() == 0,
            r@.sm.peers.len() == 0,
            r@.sm.applied_count == 0,
    {
        StateMachineCoordinator {
            consensus: QuorumConsensus::new(config),
            log: ReplicatedLog::new(log_size),
            state_machine: StateMachine::new(),
        }
    }

    /// Current role.
    pub fn consensus_state(&self) -> (r: ConsensusState)
        ensures
            r == self@.consensus.state,
    {
        self.consensus.state()
    }

    /// Current term.
    pub fn current_term(&self) -> (r: u64)
        ensures
            r == self@.consensus.term,
    {
        self.consensus.current_term()
    }

    /// Whether this node leads.
    pub fn is_leader(&self) -> (r: bool)
        ensures
            r == (self@.consensus.state == ConsensusState::Leader),
    {
        self.consensus.state() == ConsensusState::Leader
    }

    fn append_op(&mut self, operation: LogOperation) -> (r: Result<u64, CoordinatorError>)
        requires
            old(self).wf(),
            next_lsn(old(self)@.log) <= u64::MAX,
        ensures
            final(self).wf(),
            final(self).config_spec() == old(self).config_spec(),
            final(self)@.consensus == old(self)@.consensus,
            final(self)@.sm == old(self)@.sm,
            !(old(self)@.consensus.state == ConsensusState::Leader) ==> r == Err::<u64, CoordinatorError>(CoordinatorError::NotLeader)
                && final(self)@ == old(self)@,
            old(self)@.consensus.state == ConsensusState::Leader && old(self)@.log.entries.len() >= old(self)@.log.max_entries
                ==> r == Err::<u64, CoordinatorError>(CoordinatorError::Log(LogError::Full)) && final(self)@ == old(self)@,
            old(self)@.consensus.state == ConsensusState::Leader && old(self)@.log.entries.len() < old(self)@.log.max_entries
                ==> r == Ok::<u64, CoordinatorError>(next_lsn(old(self)@.log) as u64)
                && final(self)@.log.commit_index == old(self)@.log.commit_index
                && final(self)@.log.last_applied == old(self)@.log.last_applied
                && final(self)@.log.max_entries == old(self)@.log.max_entries
                && final(self)@.log.entries.len() == old(self)@.log.entries.len() + 1
                && final(self)@.log.entries.drop_last() == old(self)@.log.entries
                && leader_append(old(self)@, operation@, final(self)@.log.entries.last()),
    {
        if !self.is_leader() {
            return Err(CoordinatorError::NotLeader);
        }
        let lsn: u64 = match self.log.last_lsn() {
            Some(l) => l + 1,
            None => 1,
        };
        let entry = LogEntry::new(lsn, self.current_term(), operation);
        match self.log.append(entry) {
            Ok(l) => {
                assert(self@.log.entries.drop_last() =~= old(self)@.log.entries);
                Ok(l)
            },
            Err(e) => Err(CoordinatorError::Log(e)),
        }
    }

    /// Leader only: append an allocation at the next LSN.
    pub fn allocate(&mut self, request_id: &str, num_blocks: usize) -> (r: Result<u64, CoordinatorError>)
        requires
            old(self).wf(),
            next_lsn(old(self)@.log) <= u64::MAX,
        ensures
            final(self).wf(),
            final(self).config_spec() == old(self).config_spec(),
            final(self)@.consensus == old(self)@.consensus,
            final(self)@.sm == old(self)@.sm,
            !(old(self)@.consensus.state == ConsensusState::Leader) ==> r == Err::<u64, CoordinatorError>(CoordinatorError::NotLeader)
                && final(self)@ == old(self)@,
            old(self)@.consensus.state == ConsensusState::Leader && old(self)@.log.entries.len() >= old(self)@.log.max_entries
                ==> r == Err::<u64, CoordinatorError>(CoordinatorError::Log(LogError::Full)) && final(self)@ == old(self)@,
            old(self)@.consensus.state == ConsensusState::Leader && old(self)@.log.entries.len() < old(self)@.log.max_entries
                ==> r == Ok::<u64, CoordinatorError>(next_lsn(old(self)@.log) as u64)
                && final(self)@.log.commit_index == old(self)@.log.commit_index
                && final(self)@.log.last_applied == old(self)@.log.last_applied
                && final(self)@.log.max_entries == old(self)@.log.max_entries
                && final(self)@.log.entries.len() == old(self)@.log.entries.len() + 1
                && final(self)@.log.entries.drop_last() == old(self)@.log.entries
                && leader_append(old(self)@, OpView::Allocate { request_id: request_id@, num_blocks }, final(self)@.log.entries.last()),
    {
        let op = LogOperation::Allocate { request_id: request_id.to_owned(), num_blocks };
        self.append_op(op)
    }

    /// Leader only: append a deallocation at the next LSN.
    pub fn deallocate(&mut self, request_id: &str, blocks: Vec<usize>) -> (r: Result<u64, CoordinatorError>)
        requires
            old(self).wf(),
            next_lsn(old(self)@.log) <= u64::MAX,
        ensures
            final(self).wf(),
            final(self).config_spec() == old(self).config_spec(),
            final(self)@.consensus == old(self)@.consensus,
            final(self)@.sm == old(self)@.sm,
            !(old(self)@.consensus.state == ConsensusState::Leader) ==> r == Err::<u64, CoordinatorError>(CoordinatorError::NotLeader)
                && final(self)@ == old(self)@,
            old(self)@.consensus.state == ConsensusState::Leader && old(self)@.log.entries.len() >= old(self)@.log.max_entries
                ==> r == Err::<u64, CoordinatorError>(CoordinatorError::Log(LogError::Full)) && final(self)@ == old(self)@,
            old(self)@.consensus.state == ConsensusState::Leader && old(self)@.log.entries.len() < old(self)@.log.max_entries
                ==> r == Ok::<u64, CoordinatorError>(next_lsn(old(self)@.log) as u64)
                && final(self)@.log.commit_index == old(self)@.log.commit_index
                && final(self)@.log.last_applied == old(self)@.log.last_applied
                && final(self)@.log.max_entries == old(self)@.log.max_entries
                && final(self)@.log.entries.len() == old(self)@.log.entries.len() + 1
                && final(self)@.log.entries.drop_last() == old(self)@.log.entries
                && leader_append(old(self)@, OpView::Deallocate { request_id: request_id@, blocks: blocks@ }, final(self)@.log.entries.last()),
    {
        let op = LogOperation::Deallocate { request_id: request_id.to_owned(), blocks };
        self.append_op(op)
    }

    /// Leader only: append a peer registration at the next LSN.
    pub fn register_peer(&mut self, peer_id: &str, peer_addr: &str, capacity: usize) -> (r: Result<u64, CoordinatorError>)
        requires
            old(self).wf(),
            next_lsn(old(self)@.log) <= u64::MAX,
        ensures
            final(self).wf(),
            final(self).config_spec() == old(self).config_spec(),
            final(self)@.consensus == old(self)@.consensus,
            final(self)@.sm == old(self)@.sm,
            !(old(self)@.consensus.state == ConsensusState::Leader) ==> r == Err::<u64, CoordinatorError>(CoordinatorError::NotLeader)
                && final(self)@ == old(self)@,
            old(self)@.consensus.state == ConsensusState::Leader && old(self)@.log.entries.len() >= old(self)@.log.max_entries
                ==> r == Err::<u64, CoordinatorError>(CoordinatorError::Log(LogError::Full)) && final(self)@ == old(self)@,
            old(self)@.consensus.state == ConsensusState::Leader && old(self)@.log.entries.len() < old(self)@.log.max_entries
                ==> r == Ok::<u64, CoordinatorError>(next_lsn(old(self)@.log) as u64)
                && final(self)@.log.commit_index == old(self)@.log.commit_index
                && final(self)@.log.last_applied == old(self)@.log.last_applied
                && final(self)@.log.max_entries == old(self)@.log.max_entries
                && final(self)@.log.entries.len() == old(self)@.log.entries.len() + 1
                && final(self)@.log.entries.drop_last() == old(self)@.log.entries
                && leader_append(old(self)@, OpView::RegisterPeer { peer_id: peer_id@, peer_addr: peer_addr@, capacity }, final(self)@.log.entries.last()),
    {
        let op = LogOperation::RegisterPeer { peer_id: peer_id.to_owned(), peer_addr: peer_addr.to_owned(), capacity };
        self.append_op(op)
    }

    /// Commit the log up to `lsn`.
    pub fn commit_to_lsn(&mut self, lsn: u64) -> (r: Result<(), CoordinatorError>)
        requires
            old(self).wf(),
        ensures
            final(self).wf(),
            final(self).config_spec() == old(self).config_spec(),
            final(self)@.consensus == old(self)@.consensus,
            final(self)@.sm == old(self)@.sm,
            lsn < old(self)@.log.commit_index ==> r == Err::<(), CoordinatorError>(CoordinatorError::Log(LogError::Backwards { requested: lsn, current: old(self)@.log.commit_index })),
            lsn >= old(self)@.log.commit_index && !committable(old(self)@.log.entries, lsn) ==> r == Err::<(), CoordinatorError>(CoordinatorError::Log(LogError::NoEntry { lsn })),
            r is Err ==> final(self)@ == old(self)@,
            lsn >= old(self)@.log.commit_index && committable(old(self)@.log.entries, lsn) ==> r is Ok
                && final(self)@.log == (LogView { commit_index: lsn, ..old(self)@.log }),
    {
        match self.log.commit(lsn) {
            Ok(()) => Ok(()),
            Err(e) => Err(CoordinatorError::Log(e)),
        }
    }

    /// Apply the pending entries (committed, not applied) to the state machine in log
    /// order; each entry that changes the state moves the applied index to its LSN.
    /// Returns how many entries changed the state.
    pub fn apply_pending(&mut self) -> (r: Result<usize, CoordinatorError>)
        requires
            old(self).wf(),
            apply_room(old(self)@),
        ensures
            final(self).wf(),
            final(self).config_spec() == old(self).config_spec(),
            final(self)@.consensus == old(self)@.consensus,
            ({
                let pend = old(self)@.log.entries.filter(pending_pred(old(self)@.log.last_applied, old(self)@.log.commit_index));
                let (c, a, n, ok) = replay(content_of(old(self)@.sm), old(self)@.log.last_applied, pend);
                &&& content_of(final(self)@.sm) == c
                &&& final(self)@.log == (LogView { last_applied: a, ..old(self)@.log })
                &&& ok ==> r == Ok::<usize, CoordinatorError>(n as usize)
                &&& !ok ==> r is Err
            }),
    {
        let pending = self.log.pending_entries();
        let ghost pend = entry_views(pending@);
        let ghost es0 = self@.log.entries;
        let ghost c0 = content_of(self@.sm);
        let ghost a0 = self@.log.last_applied;
        proof {
            es0.lemma_filter_len(pending_pred(a0, self@.log.commit_index));
        }
        let mut applied: usize = 0;
        let mut i: usize = 0;
        while i < pending.len()
            invariant
                self.wf(),
                self.config_spec() == old(self).config_spec(),
                self@.consensus == old(self)@.consensus,
                i <= pending.len(),
                pend == entry_views(pending@),
                pend == es0.filter(pending_pred(a0, old(self)@.log.commit_index)),
                pend.len() <= es0.len(),
                es0 == old(self)@.log.entries,
                self@.log == (LogView { last_applied: self@.log.last_applied, ..old(self)@.log }),
                c0 == content_of(old(self)@.sm),
                a0 == old(self)@.log.last_applied,
                c0.applied_count + pend.len() <= u64::MAX,
                replay(c0, a0, pend.take(i as int)) == (content_of(self@.sm), self@.log.last_applied, applied as nat, true),
                self@.sm.applied_count == c0.applied_count + applied,
                applied <= i,
            decreases pending.len() - i,
        {
            let entry = &pending[i];
            assert(pend.take(i as int + 1).drop_last() == pend.take(i as int));
            assert(pend.take(i as int + 1).last() == entry@);
            proof {
                lemma_apply_content(self@.sm, entry.operation@, 0);
                assert(pend.contains(entry@)) by {
                    assert(pend[i as int] == entry@);
                }
                es0.lemma_filter_contains_rev(pending_pred(a0, old(self)@.log.commit_index), entry@);
                let k = es0.index_of(entry@);
                assert(es0[k].lsn == entry@.lsn);
                assert(has_lsn(es0, entry.lsn));
            }
            let res = self.state_machine.apply_entry(entry);
            match res {
                Ok(OperationResult::Success) => {
                    match self.log.apply(entry.lsn) {
                        Ok(()) => {},
                        Err(e) => {
                            proof {
                                lemma_replay_stops(c0, a0, pend, i as int + 1);
                            }
                            return Err(CoordinatorError::Log(e));
                        },
                    }
                    applied = applied + 1;
                },
                _ => {},
            }
            i = i + 1;
        }
        assert(pend.take(pending.len() as int) == pend);
        Ok(applied)
    }

    /// The allocation recorded for `request_id`.
    pub fn get_allocation(&self, request_id: &str) -> (r: Option<AllocationRecord>)
        ensures
            match r {
                Some(a) => a@.request_id == request_id@ && self@.sm.allocations.contains(a@),
                None => !alloc_ids(self@.sm.allocations).contains(request_id@),
            },
    {
        self.state_machine.get_allocation(request_id)
    }

    /// All allocations.
    pub fn allocations(&self) -> (r: Vec<AllocationRecord>)
        ensures
            alloc_views(r@) == self@.sm.allocations,
    {
        self.state_machine.allocations()
    }

    /// The peer registered as `peer_id`.
    pub fn get_peer(&self, peer_id: &str) -> (r: Option<PeerRecord>)
        ensures
            match r {
                Some(p) => p@.peer_id == peer_id@ && self@.sm.peers.contains(p@),
                None => !peer_ids(self@.sm.peers).contains(peer_id@),
            },
    {
        self.state_machine.get_peer(peer_id)
    }

    /// All peers.
    pub fn peers(&self) -> (r: Vec<PeerRecord>)
        ensures
            peer_views(r@) == self@.sm.peers,
    {
        self.state_machine.peers()
    }

    /// State hash of the state machine.
    pub fn state_hash(&self) -> (r: [u8; 32])
        ensures
            r@ == blake3_hash(content_bytes(content_of(self@.sm))),
    {
        self.state_machine.state_hash()
    }

    /// Number of changes applied by the state machine.
    pub fn applied_count(&self) -> (r: u64)
        ensures
            r == self@.sm.applied_count,
    {
        self.state_machine.applied_count()
    }

    /// Number of log entries.
    pub fn log_len(&self) -> (r: usize)
        ensures
            r == self@.log.entries.len(),
    {
        self.log.len()
    }

    /// Last applied LSN.
    pub fn last_applied(&self) -> (r: u64)
        ensures
            r == self@.log.last_applied,
    {
        self.log.last_applied()
    }

    /// Commit index.
    pub fn commit_index(&self) -> (r: u64)
        ensures
            r == self@.log.commit_index,
    {
        self.log.commit_index()
    }

    /// LSN of the last entry.
    pub fn last_lsn(&self) -> (r: Option<u64>)
        ensures
            self@.log.entries.len() == 0 ==> r is None,
            self@.log.entries.len() > 0 ==> r == Some(self@.log.entries.last().lsn),
    {
        self.log.last_lsn()
    }

    /// The consensus tracker.
    pub fn consensus(&self) -> (r: &QuorumConsensus)
        ensures
            r@ == self@.consensus,
            self.wf() ==> r.wf(),
            r.config_spec() == self.config_spec(),
    {
        &self.consensus
    }

    /// The consensus tracker, for changes.
    pub fn consensus_mut(&mut self) -> (r: &mut QuorumConsensus)
        ensures
            r@ == old(self)@.consensus,
            old(self).wf() ==> r.wf(),
            r.config_spec() == old(self).config_spec(),
            final(self).wf() == (final(r).wf() && sm_wf(old(self)@.sm)),
            old(self).wf() ==> sm_wf(old(self)@.sm),
            final(self).config_spec() == final(r).config_spec(),
            final(self)@ == (CoordView { consensus: final(r)@, ..old(self)@ }),
    {
        &mut self.consensus
    }

    /// The replicated log.
    pub fn log(&self) -> (r: &ReplicatedLog)
        ensures
            r@ == self@.log,
    {
        &self.log
    }

    /// The replicated log, for changes.
    pub fn log_mut(&mut self) -> (r: &mut ReplicatedLog)
        ensures
            r@ == old(self)@.log,
            old(self).wf() ==> final(self).wf(),
            final(self).config_spec() == old(self).config_spec(),
            final(self)@ == (CoordView { log: final(r)@, ..old(self)@ }),
    {
        &mut self.log
    }

    /// The state machine.
    pub fn state_machine(&self) -> (r: &StateMachine)
        ensures
            r@ == self@.sm,
    {
        &self.state_machine
    }
}

} // verus!
