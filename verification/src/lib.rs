use vstd::prelude::*;

pub mod allocator;
pub mod block_ownership;
pub mod branch;
pub mod concurrent_maps;
pub mod consensus;
pub mod consensus_grpc_server;
pub mod consensus_kv_cache;
pub mod distributed;
pub mod distributed_tracing;
pub mod failure_detector;
pub mod kv;
pub mod messages;
pub mod metrics;
pub mod node_config;
pub mod node_selector;
pub mod otlp_export;
pub mod ownership_digest;
pub mod policy;
pub mod remote_allocator;
pub mod replicated_log;
pub mod scheduling_service;
pub mod snapshots;
pub mod speculative;
pub mod state_machine;
pub mod state_machine_grpc;
pub mod state_machine_coordinator;
pub mod state_machine_replication;
pub mod text;
pub mod trace_context;
pub mod tracing_integration;

use crate::allocator::{
    allocator_wf, mark_blocks, AllocatorError, AllocatorView, CacheStats, KVCacheAllocator,
    count_allocated,
};
use crate::metrics::{MetricsView, SchedulerMetrics};

verus! {

/// Size of the default cache: 8 GiB.
pub const DEFAULT_CACHE_BYTES: u64 = 8589934592;

/// Size of the default block: 16 KiB.
pub const DEFAULT_BLOCK_BYTES: usize = 16384;

/// Configuration of a KV cache scheduler.
#[derive(Debug, Clone)]
pub struct SchedulerConfig {
    /// Total KV cache size.
    pub total_cache_bytes: usize,
    /// Minimum allocation unit.
    pub block_size_bytes: usize,
    /// "lru" or "lfu".
    pub eviction_policy: String,
    /// Whether predictive allocation is on.
    pub enable_predictive: bool,
}

impl Default for SchedulerConfig {
    /// An 8 GiB cache in 16 KiB blocks, LRU eviction, predictive allocation on.
    fn default() -> (r: Self)
        ensures
            r.total_cache_bytes == DEFAULT_CACHE_BYTES as usize,
            r.block_size_bytes == DEFAULT_BLOCK_BYTES,
            r.eviction_policy@ == "lru"@,
            r.enable_predictive,
    {
        SchedulerConfig {
            total_cache_bytes: #[verifier::truncate] (DEFAULT_CACHE_BYTES as usize),
            block_size_bytes: DEFAULT_BLOCK_BYTES,
            eviction_policy: String::from_str("lru"),
            enable_predictive: true,
        }
    }
}

/// KV cache scheduler: an allocator and the counters of what it did.
pub struct KVScheduler {
    allocator: KVCacheAllocator,
    metrics: SchedulerMetrics,
}

impl KVScheduler {
    pub closed spec fn allocator_view(&self) -> AllocatorView {
        self.allocator@
    }

    pub closed spec fn metrics_view(&self) -> MetricsView {
        self.metrics@
    }

    /// A scheduler over a fresh allocator of the configured size; refused as the
    /// allocator refuses.
    pub fn new(config: SchedulerConfig) -> (r: Result<Self, AllocatorError>)
        requires
            config.block_size_bytes > 0,
        ensures
            config.total_cache_bytes < config.block_size_bytes
                ==> r == Err::<Self, AllocatorError>(AllocatorError::CacheTooSmall),
            config.total_cache_bytes >= config.block_size_bytes ==> r is Ok && ({
                let s = r->Ok_0;
                let v = s.allocator_view();
                let n = config.total_cache_bytes / config.block_size_bytes;
                &&& allocator_wf(v)
                &&& v.total_bytes == config.total_cache_bytes
                &&& v.block_size == config.block_size_bytes
                &&& v.block_counter == n
                &&& v.free_list == Seq::new(n as nat, |i: int| i as usize)
                &&& v.total_allocated == 0
                &&& forall|k: usize| #[trigger] v.blocks.contains_key(k) ==> !v.blocks[k].allocated
                &&& s.metrics_view().total_allocations == 0
                &&& s.metrics_view().total_deallocations == 0
            }),
    {
        match KVCacheAllocator::new(config.total_cache_bytes, config.block_size_bytes) {
            Ok(allocator) => Ok(KVScheduler { allocator, metrics: SchedulerMetrics::new() }),
            Err(e) => Err(e),
        }
    }

    /// Allocate `num_blocks` blocks for a request and count them.
    pub fn allocate(&mut self, request_id: &str, num_blocks: usize) -> (r: Result<Vec<usize>, AllocatorError>)
        requires
            allocator_wf(old(self).allocator_view()),
        ensures
            allocator_wf(final(self).allocator_view()),
            old(self).allocator_view().free_list.len() < num_blocks ==> r == Err::<Vec<usize>, AllocatorError>(
                AllocatorError::Insufficient {
                    requested: num_blocks,
                    available: old(self).allocator_view().free_list.len() as usize,
                },
            ) && final(self).allocator_view() == old(self).allocator_view()
                && final(self).metrics_view() == old(self).metrics_view(),
            old(self).allocator_view().free_list.len() >= num_blocks ==> r is Ok && ({
                let v0 = old(self).allocator_view();
                let ids = v0.free_list.take(num_blocks as int);
                &&& r->Ok_0@ == ids
                &&& final(self).allocator_view() == (AllocatorView {
                    blocks: mark_blocks(v0.blocks, ids, true),
                    free_list: v0.free_list.skip(num_blocks as int),
                    total_allocated: v0.total_allocated.wrapping_add(num_blocks),
                    ..v0
                })
                &&& final(self).metrics_view() == (MetricsView {
                    total_allocations: old(self).metrics_view().total_allocations.wrapping_add(num_blocks as u64),
                    ..old(self).metrics_view()
                })
            }),
    {
        match self.allocator.allocate(num_blocks) {
            Ok(ids) => {
                self.metrics.record_allocation(num_blocks);
                Ok(ids)
            },
            Err(e) => Err(e),
        }
    }

    /// Release blocks and count them.
    pub fn deallocate(&mut self, block_ids: &[usize]) -> (r: Result<(), AllocatorError>)
        requires
            allocator_wf(old(self).allocator_view()),
        ensures
            allocator_wf(final(self).allocator_view()),
            r is Ok,
            final(self).allocator_view() == (AllocatorView {
                blocks: mark_blocks(old(self).allocator_view().blocks, block_ids@, false),
                free_list: old(self).allocator_view().free_list + block_ids@.filter(
                    |k: usize| old(self).allocator_view().blocks.contains_key(k),
                ),
                ..old(self).allocator_view()
            }),
            final(self).metrics_view() == (MetricsView {
                total_deallocations: old(self).metrics_view().total_deallocations.wrapping_add(
                    block_ids@.len() as u64,
                ),
                ..old(self).metrics_view()
            }),
    {
        match self.allocator.deallocate(block_ids) {
            Ok(()) => {
                self.metrics.record_deallocation(block_ids.len());
                Ok(())
            },
            Err(e) => Err(e),
        }
    }

    /// Statistics of the allocator.
    pub fn stats(&self) -> (r: CacheStats)
        requires
            allocator_wf(self.allocator_view()),
        ensures
            r.total_blocks == self.allocator_view().block_counter,
            r.allocated_blocks == count_allocated(
                self.allocator_view().blocks,
                self.allocator_view().block_counter as nat,
            ),
            r.free_blocks == self.allocator_view().free_list.len(),
            r.total_allocated_bytes == (r.allocated_blocks as usize).wrapping_mul(self.allocator_view().block_size),
            r.total_free_bytes == (r.free_blocks as usize).wrapping_mul(self.allocator_view().block_size),
    {
        self.allocator.stats()
    }

    /// The counters.
    pub fn metrics(&self) -> (r: &SchedulerMetrics)
        ensures
            r@ == self.metrics_view(),
    {
        &self.metrics
    }
}

} // verus!
