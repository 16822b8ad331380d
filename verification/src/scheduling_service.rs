use vstd::prelude::*;
use std::time::Instant;
use crate::allocator::{mark_blocks, AllocatorView};
use crate::concurrent_maps::{elapsed_ms, instant_now};
use crate::distributed::{
    assign_blocks, dist_wf, owned_by, register_all, release_blocks, DistView, DistributedCacheMetrics,
    DistributedError, DistributedKVCache,
};
use crate::messages::{
    AllocateRequest, AllocateResponse, DeallocateRequest, DeallocateResponse, HealthRequest, HealthResponse,
    StateHashRequest, StateHashResponse, STATUS_NOT_SERVING, STATUS_SERVING,
};
use crate::ownership_digest::ownership_digest;

verus! {

/// Abstract service.
pub struct ServiceView {
    pub cache: DistView,
    pub node_id: Seq<char>,
    pub epoch: u64,
}

/// Serves the scheduling calls of other nodes against a distributed cache. The
/// epoch counts the changes it made (wrapping around on overflow).
pub struct SchedulingServiceImpl {
    cache: DistributedKVCache,
    node_id: String,
    started: Instant,
    epoch: u64,
}

impl View for SchedulingServiceImpl {
    type V = ServiceView;

    closed spec fn view(&self) -> ServiceView {
        ServiceView { cache: self.cache@, node_id: self.node_id@, epoch: self.epoch }
    }
}

/// Block ids of a request, as `usize`.
pub open spec fn request_blocks(ids: Seq<u64>) -> Seq<usize> {
    ids.map_values(|b: u64| b as usize)
}

impl SchedulingServiceImpl {
    /// A service for `node_id` over `cache`, at epoch 0, started now.
    pub fn new(node_id: &str, cache: DistributedKVCache) -> (r: Self)
        ensures
            r@ == (ServiceView { cache: cache@, node_id: node_id@, epoch: 0 }),
    {
        SchedulingServiceImpl { cache, node_id: node_id.to_owned(), started: instant_now(), epoch: 0 }
    }

    fn bump_epoch(&mut self) -> (r: u64)
        ensures
            final(self)@ == (ServiceView { epoch: old(self)@.epoch.wrapping_add(1), ..old(self)@ }),
            r == final(self)@.epoch,
    {
        self.epoch = self.epoch.wrapping_add(1);
        self.epoch
    }

    /// Allocate on this node for a caller (the caller picked this node, so the
    /// allocation is not passed on). On success the epoch moves on and the reply
    /// carries the blocks and the node's capacity; a refusal is a reply with `ok`
    /// false and the reason.
    pub fn allocate_global(&mut self, request: AllocateRequest) -> (r: AllocateResponse)
        requires
            dist_wf(old(self)@.cache),
        ensures
            dist_wf(final(self)@.cache),
            ({
                let v0 = old(self)@.cache;
                let n = request.num_blocks as usize;
                let ids = v0.allocator.free_list.take(n as int);
                &&& v0.allocator.free_list.len() < n ==> !r.ok && r.block_ids@.len() == 0
                    && r.free_blocks == 0 && r.total_blocks == 0
                    && r.error@ == crate::allocator::AllocatorError::Insufficient {
                        requested: n,
                        available: v0.allocator.free_list.len() as usize,
                    }.text()
                    && final(self)@ == old(self)@
                &&& v0.allocator.free_list.len() >= n ==> r.ok && r.error@.len() == 0
                    && r.block_ids@ == ids.map_values(|b: usize| b as u64)
                    && r.free_blocks == (v0.allocator.free_list.len() - n) as u32
                    && r.total_blocks == v0.allocator.block_counter as u32
                    && final(self)@ == (ServiceView {
                        cache: DistView {
                            allocator: AllocatorView {
                                blocks: mark_blocks(v0.allocator.blocks, ids, true),
                                free_list: v0.allocator.free_list.skip(n as int),
                                total_allocated: v0.allocator.total_allocated.wrapping_add(n),
                                ..v0.allocator
                            },
                            node_map: assign_blocks(v0.node_map, ids, v0.node_id),
                            ownership: register_all(v0.ownership, ids, v0.node_id),
                            ..v0
                        },
                        epoch: old(self)@.epoch.wrapping_add(1),
                        ..old(self)@
                    })
            }),
    {
        match self.cache.allocate_local(request.num_blocks as usize) {
            Ok(handles) => {
                let stats = self.cache.local_stats();
                self.bump_epoch();
                let mut ids: Vec<u64> = Vec::new();
                let mut i: usize = 0;
                while i < handles.len()
                    invariant
                        i <= handles.len(),
                        ids@.len() == i,
                        forall|j: int| 0 <= j < i ==> ids@[j] == handles@[j].block_id as u64,
                    decreases handles.len() - i,
                {
                    ids.push(handles[i].block_id as u64);
                    i = i + 1;
                }
                proof {
                    let n = request.num_blocks as usize;
                    let want = old(self)@.cache.allocator.free_list.take(n as int).map_values(|b: usize| b as u64);
                    assert(crate::distributed::handle_views(handles@) == crate::distributed::handles_for(
                        old(self)@.cache.allocator.free_list.take(n as int), old(self)@.cache.node_id, true));
                    let t = old(self)@.cache.allocator.free_list.take(n as int);
                    assert(crate::distributed::handle_views(handles@).len() == handles@.len());
                    assert(crate::distributed::handles_for(t, old(self)@.cache.node_id, true).len() == t.len());
                    assert(handles@.len() == t.len());
                    assert forall|j: int| 0 <= j < ids@.len() implies ids@[j] == want[j] by {
                        assert(crate::distributed::handle_views(handles@)[j].block_id == handles@[j].block_id);
                        assert(crate::distributed::handles_for(t, old(self)@.cache.node_id, true)[j].block_id == t[j]);
                    }
                    assert(ids@ =~= want);
                }
                AllocateResponse {
                    block_ids: ids,
                    free_blocks: #[verifier::truncate] (stats.free_blocks as u32),
                    total_blocks: #[verifier::truncate] (stats.total_blocks as u32),
                    ok: true,
                    error: String::new(),
                }
            },
            Err(DistributedError::Local(e)) => AllocateResponse {
                block_ids: Vec::new(),
                free_blocks: 0,
                total_blocks: 0,
                ok: false,
                error: e.message(),
            },
            Err(_) => {
                assert(false);
                AllocateResponse { block_ids: Vec::new(), free_blocks: 0, total_blocks: 0, ok: false, error: String::new() }
            },
        }
    }

    /// Release blocks for a caller. On success the epoch moves on and the reply
    /// carries the free blocks; a failed release is a reply with `ok` false and the
    /// reason.
    pub fn deallocate_global(&mut self, request: DeallocateRequest) -> (r: DeallocateResponse)
        requires
            dist_wf(old(self)@.cache),
        ensures
            dist_wf(final(self)@.cache),
            ({
                let v0 = old(self)@.cache;
                let local = request_blocks(request.block_ids@).filter(owned_by(v0.node_map, v0.node_id));
                let (m, o, err) = release_blocks(v0.node_map, v0.ownership, local);
                let alloc = AllocatorView {
                    blocks: mark_blocks(v0.allocator.blocks, local, false),
                    free_list: v0.allocator.free_list + local.filter(|k: usize| v0.allocator.blocks.contains_key(k)),
                    ..v0.allocator
                };
                match err {
                    None => r.ok && r.error@.len() == 0 && r.free_blocks == alloc.free_list.len() as u32
                        && final(self)@ == (ServiceView {
                            cache: DistView {
                                allocator: alloc,
                                node_map: m,
                                ownership: o,
                                metrics: DistributedCacheMetrics {
                                    total_deallocations: v0.metrics.total_deallocations.wrapping_add(1),
                                    ..v0.metrics
                                },
                                state_hash: ownership_digest(m),
                                ..v0
                            },
                            epoch: old(self)@.epoch.wrapping_add(1),
                            ..old(self)@
                        }),
                    Some(b) => !r.ok && r.free_blocks == 0
                        && r.error@ == crate::block_ownership::OwnershipError::NotRegistered { block_id: b }.text()
                        && final(self)@ == (ServiceView {
                            cache: DistView { allocator: alloc, node_map: m, ownership: o, ..v0 },
                            ..old(self)@
                        }),
                }
            }),
    {
        let mut blocks: Vec<usize> = Vec::new();
        let mut i: usize = 0;
        while i < request.block_ids.len()
            invariant
                i <= request.block_ids.len(),
                blocks@ == request_blocks(request.block_ids@.take(i as int)),
            decreases request.block_ids.len() - i,
        {
            blocks.push(#[verifier::truncate] (request.block_ids[i] as usize));
            assert(request_blocks(request.block_ids@.take(i as int + 1)) =~= request_blocks(
                request.block_ids@.take(i as int),
            ).push(request.block_ids@[i as int] as usize));
            i = i + 1;
        }
        assert(request.block_ids@.take(i as int) =~= request.block_ids@);
        match self.cache.deallocate(blocks) {
            Ok(()) => {
                self.bump_epoch();
                let stats = self.cache.local_stats();
                DeallocateResponse { ok: true, error: String::new(), free_blocks: #[verifier::truncate] (stats.free_blocks as u32) }
            },
            Err(DistributedError::Ownership(e)) => DeallocateResponse { ok: false, error: e.message(), free_blocks: 0 },
            Err(_) => {
                assert(false);
                DeallocateResponse { ok: false, error: String::new(), free_blocks: 0 }
            },
        }
    }

    /// The cache's state hash, the epoch and the number of owned blocks.
    pub fn get_state_hash(&self, request: StateHashRequest) -> (r: StateHashResponse)
        ensures
            r.state_hash@ == self@.cache.state_hash,
            r.state_hash@.len() == 32,
            r.epoch == self@.epoch,
            r.num_owned_blocks == self@.cache.ownership.owners.dom().len() as u32,
    {
        let hash = self.cache.get_state_hash();
        let mut bytes: Vec<u8> = Vec::new();
        let mut i: usize = 0;
        while i < 32
            invariant
                i <= 32,
                hash@.len() == 32,
                bytes@ == hash@.take(i as int),
            decreases 32 - i,
        {
            bytes.push(hash[i]);
            assert(hash@.take(i as int + 1) == hash@.take(i as int).push(hash@[i as int]));
            i = i + 1;
        }
        assert(hash@.take(32) =~= hash@);
        StateHashResponse {
            state_hash: bytes,
            epoch: self.epoch,
            num_owned_blocks: #[verifier::truncate] (self.cache.num_owned_blocks() as u32),
        }
    }

    /// Serving when the local allocator has a block, with the node's capacity and
    /// the whole seconds since the service started (read from the clock).
    pub fn health_check(&self, request: HealthRequest) -> (r: HealthResponse)
        requires
            dist_wf(self@.cache),
        ensures
            r.status == if self@.cache.allocator.block_counter > 0 { STATUS_SERVING } else { STATUS_NOT_SERVING },
            r.node_id@ == self@.node_id,
            r.free_blocks == self@.cache.allocator.free_list.len() as u32,
            r.total_blocks == self@.cache.allocator.block_counter as u32,
    {
        let stats = self.cache.local_stats();
        let serving = self.cache.health_check().is_ok();
        HealthResponse {
            status: if serving { STATUS_SERVING } else { STATUS_NOT_SERVING },
            node_id: self.node_id.clone(),
            free_blocks: #[verifier::truncate] (stats.free_blocks as u32),
            total_blocks: #[verifier::truncate] (stats.total_blocks as u32),
            uptime_secs: elapsed_ms(&self.started) / 1000,
        }
    }

    /// The epoch.
    pub fn epoch(&self) -> (r: u64)
        ensures
            r == self@.epoch,
    {
        self.epoch
    }

    /// The cache served.
    pub fn cache(&self) -> (r: &DistributedKVCache)
        ensures
            r@ == self@.cache,
    {
        &self.cache
    }
}

} // verus!
