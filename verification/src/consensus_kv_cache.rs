use vstd::prelude::*;
use crate::allocator::{count_allocated, CacheStats};
use crate::consensus::ConsensusState;
use crate::distributed::{dist_wf, local_allocs, DistView, DistributedKVCache};
use crate::replicated_log::{pending_pred, LogView};
use crate::state_machine::{alloc_ids, blake3_hash, content_bytes, content_of, hex_of, to_hex};
use crate::state_machine_coordinator::{leader_append, next_lsn, replay, CoordView, CoordinatorError, StateMachineCoordinator};
use crate::state_machine_grpc::StateMachineGrpcService;
use crate::replicated_log::OpView;

verus! {

/// An allocation waiting to be carried out in the cache.
#[derive(Clone, Debug)]
pub struct AllocationRequest {
    pub request_id: String,
    pub num_blocks: usize,
    pub requester_id: Option<String>,
}

/// Outcome of an allocation put to consensus.
#[derive(Clone, Debug)]
pub struct AllocationResult {
    pub request_id: String,
    pub block_ids: Vec<usize>,
    pub lsn: u64,
    pub applied: bool,
}

/// An allocation as the state machine recorded it.
#[derive(Clone, Debug)]
pub struct AllocationStatus {
    pub request_id: String,
    pub num_blocks: usize,
    pub applied_at_ms: u64,
    pub is_applied: bool,
}

/// Why a consensus cache operation failed.
#[derive(Debug, Clone)]
pub enum ConsensusCacheError {
    /// This node does not lead.
    NotLeader,
    /// The coordinator refused.
    Coordinator(CoordinatorError),
}

pub open spec fn request_sizes(s: Seq<AllocationRequest>) -> Seq<usize> {
    s.map_values(|r: AllocationRequest| r.num_blocks)
}

/// Hex text of the state hash of a coordinator.
pub open spec fn state_hash_text(c: CoordView) -> Seq<char> {
    hex_of(blake3_hash(content_bytes(content_of(c.sm))))
}

/// A KV cache whose allocations go through consensus: an allocation is appended to
/// the log by the leader, and carried out in the cache when the log is applied.
pub struct ConsensusKVCache {
    kv_cache: DistributedKVCache,
    grpc_service: StateMachineGrpcService,
    pending_requests: Vec<AllocationRequest>,
}

impl ConsensusKVCache {
    pub closed spec fn kv(&self) -> DistView {
        self.kv_cache@
    }

    pub closed spec fn svc(&self) -> StateMachineGrpcService {
        self.grpc_service
    }

    /// Sizes of the allocations waiting to be carried out, in arrival order.
    pub closed spec fn pending(&self) -> Seq<usize> {
        request_sizes(self.pending_requests@)
    }

    pub open spec fn wf(&self) -> bool {
        &&& dist_wf(self.kv())
        &&& self.svc().wf()
    }

    pub open spec fn coord_view(&self) -> CoordView {
        self.svc().coord()@
    }

    /// A cache over `kv_cache` whose log is kept by `grpc_service`, with nothing pending.
    pub fn new(kv_cache: DistributedKVCache, grpc_service: StateMachineGrpcService) -> (r: Self)
        ensures
            r.kv() == kv_cache@,
            r.svc() == grpc_service,
            r.pending().len() == 0,
    {
        ConsensusKVCache { kv_cache, grpc_service, pending_requests: Vec::new() }
    }

    /// Leader only: append an allocation to the log and remember it as pending. The
    /// result names the log position; no block is handed out yet.
    pub fn allocate(&mut self, request_id: &str, num_blocks: usize) -> (r: Result<AllocationResult, ConsensusCacheError>)
        requires
            old(self).wf(),
            next_lsn(old(self).coord_view().log) <= u64::MAX,
        ensures
            final(self).wf(),
            final(self).kv() == old(self).kv(),
            final(self).svc().repl() == old(self).svc().repl(),
            final(self).svc().coord().config_spec() == old(self).svc().coord().config_spec(),
            final(self).coord_view().consensus == old(self).coord_view().consensus,
            final(self).coord_view().sm == old(self).coord_view().sm,
            !(old(self).coord_view().consensus.state == ConsensusState::Leader) ==> (r matches Err(ConsensusCacheError::NotLeader)
                && final(self).coord_view() == old(self).coord_view() && final(self).pending() == old(self).pending()),
            ({
                let c0 = old(self).coord_view();
                &&& c0.consensus.state == ConsensusState::Leader && c0.log.entries.len() >= c0.log.max_entries
                    ==> (r matches Err(ConsensusCacheError::Coordinator(_)) && final(self).coord_view() == c0
                    && final(self).pending() == old(self).pending())
                &&& c0.consensus.state == ConsensusState::Leader && c0.log.entries.len() < c0.log.max_entries ==> r is Ok && ({
                    let a = r->Ok_0;
                    let c1 = final(self).coord_view();
                    &&& a.request_id@ == request_id@ && a.block_ids@.len() == 0 && a.lsn == next_lsn(c0.log) && !a.applied
                    &&& c1.log.entries.drop_last() == c0.log.entries
                    &&& c1.log.entries.len() == c0.log.entries.len() + 1
                    &&& c1.log.commit_index == c0.log.commit_index
                    &&& c1.log.last_applied == c0.log.last_applied
                    &&& c1.log.max_entries == c0.log.max_entries
                    &&& leader_append(c0, OpView::Allocate { request_id: request_id@, num_blocks }, c1.log.entries.last())
                    &&& final(self).pending() == old(self).pending().push(num_blocks)
                })
            }),
    {
        if !self.grpc_service.coordinator().is_leader() {
            return Err(ConsensusCacheError::NotLeader);
        }
        let coord = self.grpc_service.coordinator_mut();
        let lsn = match coord.allocate(request_id, num_blocks) {
            Ok(l) => l,
            Err(e) => return Err(ConsensusCacheError::Coordinator(e)),
        };
        let ghost before = self.pending_requests@;
        self.pending_requests.push(AllocationRequest { request_id: request_id.to_owned(), num_blocks, requester_id: None });
        assert(request_sizes(self.pending_requests@) =~= request_sizes(before).push(num_blocks));
        Ok(AllocationResult { request_id: request_id.to_owned(), block_ids: Vec::new(), lsn, applied: false })
    }

    /// Leader only: append a deallocation to the log; gives its log position.
    pub fn deallocate(&mut self, request_id: &str, block_ids: Vec<usize>) -> (r: Result<u64, ConsensusCacheError>)
        requires
            old(self).wf(),
            next_lsn(old(self).coord_view().log) <= u64::MAX,
        ensures
            final(self).wf(),
            final(self).kv() == old(self).kv(),
            final(self).pending() == old(self).pending(),
            final(self).svc().repl() == old(self).svc().repl(),
            final(self).svc().coord().config_spec() == old(self).svc().coord().config_spec(),
            final(self).coord_view().consensus == old(self).coord_view().consensus,
            final(self).coord_view().sm == old(self).coord_view().sm,
            !(old(self).coord_view().consensus.state == ConsensusState::Leader) ==> (r matches Err(ConsensusCacheError::NotLeader)
                && final(self).coord_view() == old(self).coord_view()),
            ({
                let c0 = old(self).coord_view();
                &&& c0.consensus.state == ConsensusState::Leader && c0.log.entries.len() >= c0.log.max_entries
                    ==> (r matches Err(ConsensusCacheError::Coordinator(_)) && final(self).coord_view() == c0)
                &&& c0.consensus.state == ConsensusState::Leader && c0.log.entries.len() < c0.log.max_entries
                    ==> r == Ok::<u64, ConsensusCacheError>(next_lsn(c0.log) as u64) && ({
                    let c1 = final(self).coord_view();
                    &&& c1.log.entries.drop_last() == c0.log.entries
                    &&& c1.log.entries.len() == c0.log.entries.len() + 1
                    &&& leader_append(c0, OpView::Deallocate { request_id: request_id@, blocks: block_ids@ }, c1.log.entries.last())
                })
            }),
    {
        if !self.grpc_service.coordinator().is_leader() {
            return Err(ConsensusCacheError::NotLeader);
        }
        let coord = self.grpc_service.coordinator_mut();
        match coord.deallocate(request_id, block_ids) {
            Ok(l) => Ok(l),
            Err(e) => Err(ConsensusCacheError::Coordinator(e)),
        }
    }

    /// Leader only: commit the log up to `lsn`.
    pub fn commit_allocation(&mut self, lsn: u64) -> (r: Result<(), ConsensusCacheError>)
        requires
            old(self).wf(),
        ensures
            final(self).wf(),
            final(self).kv() == old(self).kv(),
            final(self).pending() == old(self).pending(),
            final(self).svc().repl() == old(self).svc().repl(),
            final(self).svc().coord().config_spec() == old(self).svc().coord().config_spec(),
            final(self).coord_view().consensus == old(self).coord_view().consensus,
            final(self).coord_view().sm == old(self).coord_view().sm,
            ({
                let c0 = old(self).coord_view();
                &&& !(c0.consensus.state == ConsensusState::Leader) ==> (r matches Err(ConsensusCacheError::NotLeader)
                    && final(self).coord_view() == c0)
                &&& c0.consensus.state == ConsensusState::Leader && lsn < c0.log.commit_index
                    ==> (r matches Err(ConsensusCacheError::Coordinator(_)) && final(self).coord_view() == c0)
                &&& c0.consensus.state == ConsensusState::Leader && lsn >= c0.log.commit_index
                    && !crate::replicated_log::committable(c0.log.entries, lsn)
                    ==> (r matches Err(ConsensusCacheError::Coordinator(_)) && final(self).coord_view() == c0)
                &&& c0.consensus.state == ConsensusState::Leader && lsn >= c0.log.commit_index
                    && crate::replicated_log::committable(c0.log.entries, lsn)
                    ==> r is Ok && final(self).coord_view().log == (LogView { commit_index: lsn, ..c0.log })
            }),
    {
        if !self.grpc_service.coordinator().is_leader() {
            return Err(ConsensusCacheError::NotLeader);
        }
        let coord = self.grpc_service.coordinator_mut();
        match coord.commit_to_lsn(lsn) {
            Ok(()) => Ok(()),
            Err(e) => Err(ConsensusCacheError::Coordinator(e)),
        }
    }

    /// Apply the committed log entries to the state machine, then carry out every
    /// pending allocation in the cache, one after another (one that does not fit is
    /// skipped). The pending allocations stay pending. Gives how many entries
    /// changed the state.
    pub fn apply_pending_allocations(&mut self) -> (r: Result<usize, ConsensusCacheError>)
        requires
            old(self).wf(),
            crate::state_machine_coordinator::apply_room(old(self).coord_view()),
        ensures
            final(self).wf(),
            final(self).pending() == old(self).pending(),
            final(self).svc().repl() == old(self).svc().repl(),
            final(self).svc().coord().config_spec() == old(self).svc().coord().config_spec(),
            final(self).coord_view().consensus == old(self).coord_view().consensus,
            ({
                let c0 = old(self).coord_view();
                let pend = c0.log.entries.filter(pending_pred(c0.log.last_applied, c0.log.commit_index));
                let (c, a, n, ok) = replay(content_of(c0.sm), c0.log.last_applied, pend);
                &&& content_of(final(self).coord_view().sm) == c
                &&& final(self).coord_view().log == (LogView { last_applied: a, ..c0.log })
                &&& ok ==> (r matches Ok(k) && k == n as usize && final(self).kv() == local_allocs(old(self).kv(), old(self).pending()))
                &&& !ok ==> r is Err && final(self).kv() == old(self).kv()
            }),
    {
        let coord = self.grpc_service.coordinator_mut();
        let applied = match coord.apply_pending() {
            Ok(n) => n,
            Err(e) => return Err(ConsensusCacheError::Coordinator(e)),
        };
        let ghost v0 = self.kv_cache@;
        let ghost sizes = request_sizes(self.pending_requests@);
        let ghost svc = self.grpc_service;
        let mut i: usize = 0;
        while i < self.pending_requests.len()
            invariant
                i <= self.pending_requests.len(),
                sizes == request_sizes(self.pending_requests@),
                self.grpc_service == svc,
                dist_wf(self.kv_cache@),
                self.kv_cache@ == local_allocs(v0, sizes.take(i as int)),
            decreases self.pending_requests.len() - i,
        {
            let n = self.pending_requests[i].num_blocks;
            assert(sizes.take(i as int + 1).drop_last() == sizes.take(i as int));
            assert(sizes.take(i as int + 1).last() == n);
            let _ = self.kv_cache.allocate_local(n);
            i = i + 1;
        }
        assert(sizes.take(i as int) =~= sizes);
        Ok(applied)
    }

    /// The allocation the state machine recorded for `request_id`.
    pub fn get_allocation_status(&self, request_id: &str) -> (r: Option<AllocationStatus>)
        ensures
            match r {
                Some(s) => s.is_applied && s.request_id@ == request_id@
                    && self.coord_view().sm.allocations.contains(crate::state_machine::AllocView {
                        request_id: s.request_id@,
                        num_blocks: s.num_blocks,
                        applied_at: s.applied_at_ms,
                    }),
                None => !alloc_ids(self.coord_view().sm.allocations).contains(request_id@),
            },
    {
        match self.grpc_service.coordinator().get_allocation(request_id) {
            Some(a) => Some(AllocationStatus {
                request_id: a.request_id,
                num_blocks: a.num_blocks,
                applied_at_ms: a.applied_at,
                is_applied: true,
            }),
            None => None,
        }
    }

    pub fn is_leader(&self) -> (r: bool)
        ensures
            r == (self.coord_view().consensus.state == ConsensusState::Leader),
    {
        self.grpc_service.coordinator().is_leader()
    }

    pub fn current_term(&self) -> (r: u64)
        ensures
            r == self.coord_view().consensus.term,
    {
        self.grpc_service.coordinator().current_term()
    }

    pub fn log_length(&self) -> (r: usize)
        ensures
            r == self.coord_view().log.entries.len(),
    {
        self.grpc_service.coordinator().log_len()
    }

    pub fn commit_index(&self) -> (r: u64)
        ensures
            r == self.coord_view().log.commit_index,
    {
        self.grpc_service.coordinator().commit_index()
    }

    /// The state machine's hash, in lowercase hex.
    pub fn state_hash(&self) -> (r: String)
        ensures
            r@ == state_hash_text(self.coord_view()),
    {
        let h = self.grpc_service.coordinator().state_hash();
        to_hex(&h)
    }

    /// Statistics of the cache's local allocator.
    pub fn cache_stats(&self) -> (r: CacheStats)
        requires
            self.wf(),
        ensures
            r.total_blocks == self.kv().allocator.block_counter,
            r.allocated_blocks == count_allocated(self.kv().allocator.blocks, self.kv().allocator.block_counter as nat),
            r.free_blocks == self.kv().allocator.free_list.len(),
    {
        self.kv_cache.local_stats()
    }

    /// Whether this node's state hash is `expected_hash`.
    pub fn verify_consistency(&self, expected_hash: &str) -> (r: bool)
        ensures
            r == (state_hash_text(self.coord_view()) == expected_hash@),
    {
        let mine = self.state_hash();
        let theirs: String = expected_hash.to_owned();
        mine == theirs
    }

    /// The coordinator.
    pub fn coordinator(&self) -> (r: &StateMachineCoordinator)
        ensures
            *r == self.svc().coord(),
    {
        self.grpc_service.coordinator()
    }

    /// The coordinator, for changes.
    pub fn coordinator_mut(&mut self) -> (r: &mut StateMachineCoordinator)
        ensures
            *r == old(self).svc().coord(),
            final(self).svc().coord() == *final(r),
            final(self).svc().repl() == old(self).svc().repl(),
            final(self).kv() == old(self).kv(),
            final(self).pending() == old(self).pending(),
    {
        self.grpc_service.coordinator_mut()
    }

    /// The cache.
    pub fn kv_cache(&self) -> (r: &DistributedKVCache)
        ensures
            r@ == self.kv(),
    {
        &self.kv_cache
    }

    /// The state machine service.
    pub fn grpc_service(&self) -> (r: &StateMachineGrpcService)
        ensures
            *r == self.svc(),
    {
        &self.grpc_service
    }

    /// The state machine service, for changes.
    pub fn grpc_service_mut(&mut self) -> (r: &mut StateMachineGrpcService)
        ensures
            *r == old(self).svc(),
            final(self).svc() == *final(r),
            final(self).kv() == old(self).kv(),
            final(self).pending() == old(self).pending(),
    {
        &mut self.grpc_service
    }
}

} // verus!
