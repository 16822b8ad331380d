use vstd::prelude::*;
use dashmap::DashMap;
use crate::allocator::{allocator_wf, mark_blocks, AllocatorError, AllocatorView, CacheStats, KVCacheAllocator, count_allocated};
use crate::block_ownership::{register_effect, unregister_effect, BlockOwnership, OwnershipError, OwnershipView};
use crate::concurrent_maps::{
    owner_table, owners_get, owners_insert, owners_new, owners_remove, remote_table, remotes_connected, remotes_insert,
    remotes_new, remotes_remove,
};
use crate::failure_detector::FailureDetector;
use crate::messages::{AllocateRequest, AllocateResponse};
use crate::node_selector::{NodeCapacity, NodeSelector, SelectionError, SelectorView, ranked_candidates, selector_wf, upsert};
use crate::ownership_digest::{initial_digest, initial_digest_value, ownership_digest, ownership_digest_of};
use crate::remote_allocator::{allocate_blocks, allocate_effect, allocate_error, after_success, RemoteAllocator, RemoteError, RemoteView};

verus! {

/// A block handed out by the cache.
#[derive(Debug, Clone)]
pub struct BlockHandle {
    pub block_id: usize,
    pub owner_node: String,
    pub is_local: bool,
}

pub struct HandleView {
    pub block_id: usize,
    pub owner_node: Seq<char>,
    pub is_local: bool,
}

impl View for BlockHandle {
    type V = HandleView;

    open spec fn view(&self) -> HandleView {
        HandleView { block_id: self.block_id, owner_node: self.owner_node@, is_local: self.is_local }
    }
}

pub open spec fn handle_views(s: Seq<BlockHandle>) -> Seq<HandleView> {
    s.map_values(|h: BlockHandle| h@)
}

/// Handles for `ids`, all owned by `node`.
pub open spec fn handles_for(ids: Seq<usize>, node: Seq<char>, is_local: bool) -> Seq<HandleView> {
    ids.map_values(|b: usize| HandleView { block_id: b, owner_node: node, is_local })
}

/// Counters of the distributed cache (they wrap around on overflow).
#[derive(Debug, Clone, Copy, PartialEq, Eq, Structural)]
pub struct DistributedCacheMetrics {
    pub total_allocations: u64,
    pub total_deallocations: u64,
    pub cross_node_allocations: u64,
    pub failed_allocations: u64,
    pub blocks_migrated: u64,
    pub consistency_violations: u64,
}

impl Default for DistributedCacheMetrics {
    /// All counters at zero.
    fn default() -> (r: Self)
        ensures
            r == DistributedCacheMetrics::zero(),
    {
        DistributedCacheMetrics {
            total_allocations: 0,
            total_deallocations: 0,
            cross_node_allocations: 0,
            failed_allocations: 0,
            blocks_migrated: 0,
            consistency_violations: 0,
        }
    }
}

impl DistributedCacheMetrics {
    pub open spec fn zero() -> Self {
        DistributedCacheMetrics {
            total_allocations: 0,
            total_deallocations: 0,
            cross_node_allocations: 0,
            failed_allocations: 0,
            blocks_migrated: 0,
            consistency_violations: 0,
        }
    }
}

/// Why a cache operation failed.
#[derive(Debug, Clone)]
pub enum DistributedError {
    /// The local allocator refused.
    Local(AllocatorError),
    /// No node could be selected for a remote allocation.
    NoNode(SelectionError),
    /// The selected node has no client.
    UnknownPeer,
    /// The remote node's allocation failed.
    Remote(RemoteError),
    /// A released block had no registered owner.
    Ownership(OwnershipError),
    /// The local allocator has no block at all.
    NoBlocks,
}

/// Each id assigned to `node`, one after another.
pub open spec fn assign_blocks(m: Map<usize, Seq<char>>, ids: Seq<usize>, node: Seq<char>) -> Map<usize, Seq<char>>
    decreases ids.len(),
{
    if ids.len() == 0 {
        m
    } else {
        assign_blocks(m, ids.drop_last(), node).insert(ids.last(), node)
    }
}

/// Each id registered to `node`, one after another.
pub open spec fn register_all(v: OwnershipView, ids: Seq<usize>, node: Seq<char>) -> OwnershipView
    decreases ids.len(),
{
    if ids.len() == 0 {
        v
    } else {
        register_effect(register_all(v, ids.drop_last(), node), ids.last(), node)
    }
}

/// Release the listed blocks one after another: each leaves the block map and is
/// unregistered; the first one found unregistered stops the release (and is
/// returned).
pub open spec fn release_blocks(m: Map<usize, Seq<char>>, o: OwnershipView, s: Seq<usize>) -> (Map<usize, Seq<char>>, OwnershipView, Option<usize>)
    decreases s.len(),
{
    if s.len() == 0 {
        (m, o, None)
    } else {
        let (m1, o1, e) = release_blocks(m, o, s.drop_last());
        if e is Some {
            (m1, o1, e)
        } else {
            let b = s.last();
            if o1.owners.contains_key(b) {
                (m1.remove(b), unregister_effect(o1, b), None)
            } else {
                (m1.remove(b), o1, Some(b))
            }
        }
    }
}

/// Blocks that the map gives to `node`.
pub open spec fn owned_by(m: Map<usize, Seq<char>>, node: Seq<char>) -> spec_fn(usize) -> bool {
    |b: usize| m.contains_key(b) && m[b] == node
}

pub proof fn lemma_release_keeps_sync(m: Map<usize, Seq<char>>, o: OwnershipView, s: Seq<usize>)
    requires
        o.owners == m,
    ensures
        release_blocks(m, o, s).1.owners == release_blocks(m, o, s).0,
    decreases s.len(),
{
    if s.len() > 0 {
        lemma_release_keeps_sync(m, o, s.drop_last());
        let (m1, o1, e) = release_blocks(m, o, s.drop_last());
        if e is None && !o1.owners.contains_key(s.last()) {
            assert(m1.remove(s.last()) =~= m1);
        }
    }
}

pub proof fn lemma_assign_keeps_sync(m: Map<usize, Seq<char>>, o: OwnershipView, ids: Seq<usize>, node: Seq<char>)
    requires
        o.owners == m,
    ensures
        register_all(o, ids, node).owners == assign_blocks(m, ids, node),
    decreases ids.len(),
{
    if ids.len() > 0 {
        lemma_assign_keeps_sync(m, o, ids.drop_last(), node);
    }
}

/// Effect of allocating `n` blocks on this node: the first `n` free blocks are
/// allocated and recorded as this node's.
pub open spec fn local_alloc_effect(v0: DistView, n: usize) -> DistView {
    let ids = v0.allocator.free_list.take(n as int);
    DistView {
        allocator: AllocatorView {
            blocks: mark_blocks(v0.allocator.blocks, ids, true),
            free_list: v0.allocator.free_list.skip(n as int),
            total_allocated: v0.allocator.total_allocated.wrapping_add(n),
            ..v0.allocator
        },
        node_map: assign_blocks(v0.node_map, ids, v0.node_id),
        ownership: register_all(v0.ownership, ids, v0.node_id),
        ..v0
    }
}

/// Local allocations of each size in turn; one that does not fit changes nothing.
pub open spec fn local_allocs(v: DistView, ns: Seq<usize>) -> DistView
    decreases ns.len(),
{
    if ns.len() == 0 {
        v
    } else {
        let v1 = local_allocs(v, ns.drop_last());
        if v1.allocator.free_list.len() >= ns.last() { local_alloc_effect(v1, ns.last()) } else { v1 }
    }
}

/// Abstract cache.
pub struct DistView {
    pub node_id: Seq<char>,
    pub node_map: Map<usize, Seq<char>>,
    pub allocator: AllocatorView,
    pub ownership: OwnershipView,
    pub selector: SelectorView,
    pub remotes: Map<Seq<char>, RemoteView>,
    pub metrics: DistributedCacheMetrics,
    pub state_hash: Seq<u8>,
}

/// Distributed KV cache: allocates locally, falls back to a peer, and tracks which
/// node owns each block.
pub struct DistributedKVCache {
    node_map: DashMap<usize, String>,
    local_allocator: KVCacheAllocator,
    ownership: BlockOwnership,
    failure_detector: FailureDetector,
    node_selector: NodeSelector,
    remote_allocators: DashMap<String, RemoteAllocator>,
    metrics: DistributedCacheMetrics,
    state_hash: [u8; 32],
    node_id: String,
}

impl View for DistributedKVCache {
    type V = DistView;

    closed spec fn view(&self) -> DistView {
        DistView {
            node_id: self.node_id@,
            node_map: owner_table(self.node_map),
            allocator: self.local_allocator@,
            ownership: self.ownership@,
            selector: self.node_selector@,
            remotes: remote_table(self.remote_allocators),
            metrics: self.metrics,
            state_hash: self.state_hash@,
        }
    }
}

/// The allocator and the selector are well formed, and the ownership records agree
/// with the block map.
pub open spec fn dist_wf(v: DistView) -> bool {
    &&& allocator_wf(v.allocator)
    &&& selector_wf(v.selector)
    &&& v.ownership.owners == v.node_map
}

/// Every client can record one more failure.

impl DistributedKVCache {
    /// A cache for `node_id` over `local_allocator`, with no peer, no block
    /// assigned, and the digest of "empty" as its state hash.
    pub fn new(node_id: String, local_allocator: KVCacheAllocator) -> (r: Self)
        requires
            allocator_wf(local_allocator@),
        ensures
            dist_wf(r@),
            r@.node_id == node_id@,
            r@.node_map.dom().is_empty(),
            r@.allocator == local_allocator@,
            r@.ownership.node_blocks.dom().is_empty(),
            r@.selector.nodes.len() == 0,
            r@.remotes.dom().is_empty(),
            r@.metrics == DistributedCacheMetrics::zero(),
            r@.state_hash == initial_digest(),
    {
        let r = DistributedKVCache {
            node_map: owners_new(),
            local_allocator,
            ownership: BlockOwnership::new(),
            failure_detector: FailureDetector::new(),
            node_selector: NodeSelector::new(),
            remote_allocators: remotes_new(),
            metrics: DistributedCacheMetrics::default(),
            state_hash: initial_digest_value(),
            node_id,
        };
        assert(r@.ownership.owners =~= r@.node_map);
        r
    }

    /// Register a peer: a fresh client for it (replacing any earlier one) and the
    /// peer in the selector with all of `capacity` free.
    pub fn register_peer(&mut self, peer_id: String, peer_addr: String, capacity: usize) -> (r: Result<(), DistributedError>)
        requires
            dist_wf(old(self)@),
        ensures
            dist_wf(final(self)@),
            r is Ok,
            ({
                let fresh = RemoteView {
                    node_id: peer_id@,
                    node_addr: peer_addr@,
                    caller_node_id: "local"@,
                    connected: false,
                    capacity: None,
                    health: crate::remote_allocator::HealthStatus::Unknown,
                    has_succeeded: false,
                    failure_count: 0,
                };
                &&& final(self)@ == (DistView {
                    remotes: old(self)@.remotes.insert(peer_id@, fresh),
                    selector: SelectorView {
                        nodes: upsert(old(self)@.selector.nodes, peer_id@, NodeCapacity {
                            total_blocks: capacity,
                            free_blocks: capacity,
                            allocated_blocks: 0,
                        }),
                        ..old(self)@.selector
                    },
                    ..old(self)@
                })
            }),
    {
        let client = RemoteAllocator::new(peer_id.clone(), peer_addr);
        remotes_insert(&mut self.remote_allocators, peer_id.clone(), client);
        let cap = NodeCapacity { total_blocks: capacity, free_blocks: capacity, allocated_blocks: 0 };
        let _ = self.node_selector.register_node(peer_id, cap);
        Ok(())
    }

    /// Record `ids` as owned by `node` in the block map and the ownership records,
    /// and hand out their handles.
    fn assign(&mut self, ids: &Vec<usize>, node: &String, is_local: bool) -> (r: Vec<BlockHandle>)
        requires
            dist_wf(old(self)@),
        ensures
            dist_wf(final(self)@),
            handle_views(r@) == handles_for(ids@, node@, is_local),
            final(self)@ == (DistView {
                node_map: assign_blocks(old(self)@.node_map, ids@, node@),
                ownership: register_all(old(self)@.ownership, ids@, node@),
                ..old(self)@
            }),
    {
        let ghost v0 = self@;
        let mut handles: Vec<BlockHandle> = Vec::new();
        let mut i: usize = 0;
        while i < ids.len()
            invariant
                i <= ids.len(),
                dist_wf(v0),
                dist_wf(self@),
                handles@.len() == i,
                handle_views(handles@) == handles_for(ids@.take(i as int), node@, is_local),
                self@ == (DistView {
                    node_map: assign_blocks(v0.node_map, ids@.take(i as int), node@),
                    ownership: register_all(v0.ownership, ids@.take(i as int), node@),
                    ..v0
                }),
            decreases ids.len() - i,
        {
            let b = ids[i];
            assert(ids@.take(i as int + 1).drop_last() == ids@.take(i as int));
            assert(ids@.take(i as int + 1).last() == b);
            assert(ids@.take(i as int + 1) == ids@.take(i as int).push(b));
            let _ = self.ownership.register_block(b, node.clone());
            owners_insert(&mut self.node_map, b, node.clone());
            let ghost before = handles@;
            handles.push(BlockHandle { block_id: b, owner_node: node.clone(), is_local });
            assert(handles@ == before.push(handles@[i as int]));
            assert(handles@[i as int]@ == (HandleView { block_id: b, owner_node: node@, is_local }));
            assert(handle_views(handles@) =~= handle_views(before).push(handles@[i as int]@));
            assert(handle_views(handles@) =~= handles_for(ids@.take(i as int + 1), node@, is_local));
            i = i + 1;
        }
        assert(ids@.take(i as int) =~= ids@);
        handles
    }

    /// Allocate on this node and record the blocks as this node's.
    pub fn allocate_local(&mut self, num_blocks: usize) -> (r: Result<Vec<BlockHandle>, DistributedError>)
        requires
            dist_wf(old(self)@),
        ensures
            dist_wf(final(self)@),
            old(self)@.allocator.free_list.len() < num_blocks ==> (r matches Err(DistributedError::Local(AllocatorError::Insufficient { requested, available }))
                && requested == num_blocks && available == old(self)@.allocator.free_list.len()
                && final(self)@ == old(self)@),
            old(self)@.allocator.free_list.len() >= num_blocks ==> r is Ok
                && handle_views(r->Ok_0@) == handles_for(old(self)@.allocator.free_list.take(num_blocks as int), old(self)@.node_id, true)
                && final(self)@ == local_alloc_effect(old(self)@, num_blocks),
    {
        let ghost v0 = self@;
        let ids = match self.local_allocator.allocate(num_blocks) {
            Ok(ids) => ids,
            Err(e) => return Err(DistributedError::Local(e)),
        };
        assert(self@.ownership.owners == self@.node_map);
        let node = self.node_id.clone();
        let handles = self.assign(&ids, &node, true);
        proof {
            lemma_assign_keeps_sync(v0.node_map, v0.ownership, ids@, node@);
        }
        Ok(handles)
    }

    /// Recompute the state hash from the block map.
    fn update_state_hash(&mut self)
        ensures
            final(self)@ == (DistView { state_hash: ownership_digest(old(self)@.node_map), ..old(self)@ }),
    {
        self.state_hash = ownership_digest_of(&self.node_map);
    }

    /// First step of a global allocation: allocate on this node. On success the
    /// allocation is counted and the state hash recomputed; on refusal nothing
    /// changes (the caller then tries a peer).
    pub fn try_allocate_local(&mut self, request_id: &str, num_blocks: usize) -> (r: Result<Vec<BlockHandle>, DistributedError>)
        requires
            dist_wf(old(self)@),
        ensures
            dist_wf(final(self)@),
            old(self)@.allocator.free_list.len() < num_blocks ==> (r matches Err(DistributedError::Local(AllocatorError::Insufficient { requested, available }))
                && requested == num_blocks && available == old(self)@.allocator.free_list.len()
                && final(self)@ == old(self)@),
            old(self)@.allocator.free_list.len() >= num_blocks ==> r is Ok && ({
                let v0 = old(self)@;
                let v1 = local_alloc_effect(v0, num_blocks);
                &&& handle_views(r->Ok_0@) == handles_for(v0.allocator.free_list.take(num_blocks as int), v0.node_id, true)
                &&& final(self)@ == (DistView {
                    metrics: DistributedCacheMetrics {
                        total_allocations: v0.metrics.total_allocations.wrapping_add(1),
                        ..v0.metrics
                    },
                    state_hash: ownership_digest(v1.node_map),
                    ..v1
                })
            }),
    {
        match self.allocate_local(num_blocks) {
            Ok(handles) => {
                self.metrics.total_allocations = self.metrics.total_allocations.wrapping_add(1);
                self.update_state_hash();
                Ok(handles)
            },
            Err(e) => Err(e),
        }
    }

    /// Second step of a global allocation: the peer chosen by `select_remote`
    /// (its selection is handed in), and the reply of its allocation call (`None`
    /// when no channel to it is open). On success the blocks are recorded as the
    /// peer's, the allocation counted as cross-node, and the state hash recomputed;
    /// any failure is counted.
    pub fn complete_remote_allocation(
        &mut self,
        request_id: &str,
        selected: Result<String, SelectionError>,
        num_blocks: usize,
        rpc: Option<Result<AllocateResponse, String>>,
    ) -> (r: Result<Vec<BlockHandle>, DistributedError>)
        requires
            dist_wf(old(self)@),
            match selected {
                Ok(node) => old(self)@.remotes.contains_key(node@)
                    && allocate_blocks(old(self)@.remotes[node@], num_blocks, rpc) is None
                    ==> old(self)@.remotes[node@].failure_count < u32::MAX,
                Err(_) => true,
            },
        ensures
            dist_wf(final(self)@),
            ({
                let v0 = old(self)@;
                let failed = DistView {
                    metrics: DistributedCacheMetrics {
                        failed_allocations: v0.metrics.failed_allocations.wrapping_add(1),
                        ..v0.metrics
                    },
                    ..v0
                };
                match selected {
                    Err(e) => r matches Err(DistributedError::NoNode(e2)) && e2 == e && final(self)@ == failed,
                    Ok(node) => if !v0.remotes.contains_key(node@) {
                        r matches Err(DistributedError::UnknownPeer) && final(self)@ == failed
                    } else {
                        let rv = v0.remotes[node@];
                        let remotes = v0.remotes.insert(node@, allocate_effect(rv, num_blocks, rpc));
                        match allocate_blocks(rv, num_blocks, rpc) {
                            Some(ids) => {
                                let m = assign_blocks(v0.node_map, ids, node@);
                                &&& r is Ok && handle_views(r->Ok_0@) == handles_for(ids, node@, false)
                                &&& final(self)@ == (DistView {
                                    remotes,
                                    node_map: m,
                                    ownership: register_all(v0.ownership, ids, node@),
                                    metrics: DistributedCacheMetrics {
                                        cross_node_allocations: v0.metrics.cross_node_allocations.wrapping_add(1),
                                        total_allocations: v0.metrics.total_allocations.wrapping_add(1),
                                        ..v0.metrics
                                    },
                                    state_hash: ownership_digest(m),
                                    ..v0
                                })
                            },
                            None => {
                                &&& r matches Err(DistributedError::Remote(e)) && allocate_error(e, rpc)
                                &&& final(self)@ == (DistView { remotes, ..failed })
                            },
                        }
                    },
                }
            }),
    {
        let ghost v0 = self@;
        let node = match selected {
            Ok(n) => n,
            Err(e) => {
                self.metrics.failed_allocations = self.metrics.failed_allocations.wrapping_add(1);
                return Err(DistributedError::NoNode(e));
            },
        };
        let mut client = match remotes_remove(&mut self.remote_allocators, &node) {
            Some(c) => c,
            None => {
                assert(self@.remotes =~= v0.remotes);
                self.metrics.failed_allocations = self.metrics.failed_allocations.wrapping_add(1);
                return Err(DistributedError::UnknownPeer);
            },
        };
        let ghost rv = v0.remotes[node@];
        let res = client.allocate(num_blocks, rpc);
        remotes_insert(&mut self.remote_allocators, node.clone(), client);
        assert(self@.remotes =~= v0.remotes.insert(node@, allocate_effect(rv, num_blocks, rpc)));
        match res {
            Ok(ids) => {
                self.metrics.cross_node_allocations = self.metrics.cross_node_allocations.wrapping_add(1);
                self.metrics.total_allocations = self.metrics.total_allocations.wrapping_add(1);
                let handles = self.assign(&ids, &node, false);
                proof {
                    lemma_assign_keeps_sync(v0.node_map, v0.ownership, ids@, node@);
                }
                self.update_state_hash();
                Ok(handles)
            },
            Err(e) => {
                self.metrics.failed_allocations = self.metrics.failed_allocations.wrapping_add(1);
                Err(DistributedError::Remote(e))
            },
        }
    }

    /// The peer for a remote allocation of `num_blocks`: the best one with room in
    /// the caller's ranking of the peers (best first).
    pub fn select_remote(&self, num_blocks: usize, ranked: &Vec<String>) -> (r: Result<String, SelectionError>)
        requires
            dist_wf(self@),
        ensures
            self@.selector.nodes.len() == 0 ==> r == Err::<String, SelectionError>(SelectionError::NoNodes),
            ({
                let c = ranked_candidates(self@.selector.nodes, num_blocks, ranked@.map_values(|s: String| s@));
                &&& self@.selector.nodes.len() > 0 && c.len() == 0 ==> r == Err::<String, SelectionError>(
                    SelectionError::NoCapacity { required_blocks: num_blocks },
                )
                &&& self@.selector.nodes.len() > 0 && c.len() > 0 ==> r is Ok && r->Ok_0@ == c[0]
            }),
    {
        self.node_selector.select_node(num_blocks, ranked)
    }

    /// Release blocks. Blocks owned by this node are released in the local allocator,
    /// then leave the block map and the ownership records one after another; blocks
    /// of other nodes, or of none, are left alone. The release is counted and the
    /// state hash recomputed. A block listed twice stops the release when it is met
    /// again (it is no longer registered), before the count and the hash.
    pub fn deallocate(&mut self, blocks: Vec<usize>) -> (r: Result<(), DistributedError>)
        requires
            dist_wf(old(self)@),
        ensures
            dist_wf(final(self)@),
            ({
                let v0 = old(self)@;
                let local = blocks@.filter(owned_by(v0.node_map, v0.node_id));
                let (m, o, err) = release_blocks(v0.node_map, v0.ownership, local);
                let alloc = AllocatorView {
                    blocks: mark_blocks(v0.allocator.blocks, local, false),
                    free_list: v0.allocator.free_list + local.filter(|k: usize| v0.allocator.blocks.contains_key(k)),
                    ..v0.allocator
                };
                match err {
                    None => r is Ok && final(self)@ == (DistView {
                        allocator: alloc,
                        node_map: m,
                        ownership: o,
                        metrics: DistributedCacheMetrics {
                            total_deallocations: v0.metrics.total_deallocations.wrapping_add(1),
                            ..v0.metrics
                        },
                        state_hash: ownership_digest(m),
                        ..v0
                    }),
                    Some(b) => r matches Err(DistributedError::Ownership(OwnershipError::NotRegistered { block_id }))
                        && block_id == b
                        && final(self)@ == (DistView { allocator: alloc, node_map: m, ownership: o, ..v0 }),
                }
            }),
    {
        let ghost v0 = self@;
        let ghost pred = owned_by(v0.node_map, v0.node_id);
        let mut local: Vec<usize> = Vec::new();
        let mut i: usize = 0;
        while i < blocks.len()
            invariant
                i <= blocks.len(),
                self@ == v0,
                pred == owned_by(v0.node_map, v0.node_id),
                local@ == blocks@.take(i as int).filter(pred),
            decreases blocks.len() - i,
        {
            let b = blocks[i];
            assert(blocks@.take(i as int + 1) == blocks@.take(i as int).push(b));
            proof {
                blocks@.take(i as int).lemma_filter_push(b, pred);
            }
            match owners_get(&self.node_map, b) {
                Some(owner) => {
                    if owner == self.node_id {
                        local.push(b);
                    }
                },
                None => {},
            }
            i = i + 1;
        }
        assert(blocks@.take(i as int) =~= blocks@);
        let ghost known = |k: usize| v0.allocator.blocks.contains_key(k);
        if local.len() > 0 {
            let _ = self.local_allocator.deallocate(local.as_slice());
        } else {
            assert(local@ =~= Seq::<usize>::empty());
            assert(mark_blocks(v0.allocator.blocks, local@, false) == v0.allocator.blocks);
            assert(local@.filter(known) =~= Seq::<usize>::empty());
            assert(v0.allocator.free_list + local@.filter(known) =~= v0.allocator.free_list);
        }
        assert(self@.allocator == (AllocatorView {
            blocks: mark_blocks(v0.allocator.blocks, local@, false),
            free_list: v0.allocator.free_list + local@.filter(known),
            ..v0.allocator
        }));
        let ghost v1 = self@;
        let mut j: usize = 0;
        while j < local.len()
            invariant
                j <= local.len(),
                v0 == old(self)@,
                dist_wf(v0),
                v1.node_map == v0.node_map,
                v1.ownership == v0.ownership,
                v1 == (DistView { allocator: v1.allocator, ..v0 }),
                known == (|k: usize| v0.allocator.blocks.contains_key(k)),
                v1.allocator == (AllocatorView {
                    blocks: mark_blocks(v0.allocator.blocks, local@, false),
                    free_list: v0.allocator.free_list + local@.filter(known),
                    ..v0.allocator
                }),
                pred == owned_by(v0.node_map, v0.node_id),
                local@ == blocks@.filter(pred),
                allocator_wf(self@.allocator),
                ({
                    let (m, o, e) = release_blocks(v0.node_map, v0.ownership, local@.take(j as int));
                    &&& e is None
                    &&& self@ == (DistView { node_map: m, ownership: o, ..v1 })
                }),
            decreases local.len() - j,
        {
            let b = local[j];
            assert(local@.take(j as int + 1).drop_last() == local@.take(j as int));
            assert(local@.take(j as int + 1).last() == b);
            proof {
                lemma_release_keeps_sync(v0.node_map, v0.ownership, local@.take(j as int));
            }
            owners_remove(&mut self.node_map, b);
            match self.ownership.unregister_block(b) {
                Ok(()) => {},
                Err(e) => {
                    assert(release_blocks(v0.node_map, v0.ownership, local@.take(j as int + 1)).2 == Some(b));
                    assert(local@ == blocks@.filter(pred));
                    proof {
                        lemma_release_keeps_sync(v0.node_map, v0.ownership, local@.take(j as int + 1));
                        lemma_release_error_persists(v0.node_map, v0.ownership, local@, j as int + 1);
                    }
                        assert(self@.node_map == release_blocks(v0.node_map, v0.ownership, local@).0);
                    assert(self@.ownership == release_blocks(v0.node_map, v0.ownership, local@).1);
                    assert(release_blocks(v0.node_map, v0.ownership, local@).2 == Some(b));
                    return Err(DistributedError::Ownership(e));
                },
            }
            j = j + 1;
        }
        assert(local@.take(j as int) =~= local@);
        proof {
            lemma_release_keeps_sync(v0.node_map, v0.ownership, local@);
        }
        self.metrics.total_deallocations = self.metrics.total_deallocations.wrapping_add(1);
        self.update_state_hash();
        Ok(())
    }

    /// Owner of a block.
    pub fn owner_of(&self, block_id: usize) -> (r: Result<String, OwnershipError>)
        ensures
            self@.ownership.owners.contains_key(block_id) ==> r is Ok && r->Ok_0@ == self@.ownership.owners[block_id],
            !self@.ownership.owners.contains_key(block_id) ==> r == Err::<String, OwnershipError>(
                OwnershipError::NotRegistered { block_id },
            ),
    {
        self.ownership.owner_of(block_id)
    }

    /// The current state hash.
    pub fn get_state_hash(&self) -> (r: [u8; 32])
        ensures
            r@ == self@.state_hash,
    {
        self.state_hash
    }

    /// Statistics of the local allocator.
    pub fn local_stats(&self) -> (r: CacheStats)
        requires
            dist_wf(self@),
        ensures
            r.total_blocks == self@.allocator.block_counter,
            r.allocated_blocks == count_allocated(self@.allocator.blocks, self@.allocator.block_counter as nat),
            r.free_blocks == self@.allocator.free_list.len(),
            r.total_allocated_bytes == (r.allocated_blocks as usize).wrapping_mul(self@.allocator.block_size),
            r.total_free_bytes == (r.free_blocks as usize).wrapping_mul(self@.allocator.block_size),
    {
        self.local_allocator.stats()
    }

    /// Number of blocks with a registered owner.
    pub fn num_owned_blocks(&self) -> (r: usize)
        ensures
            r == self@.ownership.owners.dom().len(),
    {
        self.ownership.total_blocks()
    }

    /// The cache can serve when its local allocator has at least one block.
    pub fn health_check(&self) -> (r: Result<(), DistributedError>)
        requires
            dist_wf(self@),
        ensures
            self@.allocator.block_counter == 0 ==> r matches Err(DistributedError::NoBlocks),
            self@.allocator.block_counter > 0 ==> r is Ok,
    {
        let stats = self.local_allocator.stats();
        if stats.total_blocks == 0 {
            return Err(DistributedError::NoBlocks);
        }
        Ok(())
    }

    /// A channel to a peer is now open; an unknown peer is refused.
    pub fn mark_peer_connected(&mut self, peer_id: &str) -> (r: Result<(), DistributedError>)
        requires
            dist_wf(old(self)@),
        ensures
            dist_wf(final(self)@),
            !old(self)@.remotes.contains_key(peer_id@) ==> (r matches Err(DistributedError::UnknownPeer)
                && final(self)@ == old(self)@),
            old(self)@.remotes.contains_key(peer_id@) ==> r is Ok && final(self)@ == (DistView {
                remotes: old(self)@.remotes.insert(
                    peer_id@,
                    after_success(RemoteView { connected: true, ..old(self)@.remotes[peer_id@] }),
                ),
                ..old(self)@
            }),
    {
        let ghost v0 = self@;
        let key: String = peer_id.to_owned();
        match remotes_remove(&mut self.remote_allocators, &key) {
            Some(mut client) => {
                client.mark_connected();
                remotes_insert(&mut self.remote_allocators, key, client);
                assert(self@.remotes =~= v0.remotes.insert(peer_id@, self@.remotes[peer_id@]));
                Ok(())
            },
            None => {
                assert(self@.remotes =~= v0.remotes);
                Err(DistributedError::UnknownPeer)
            },
        }
    }

    /// Whether a channel to a peer is open; `None` for an unknown peer.
    pub fn peer_connected(&self, peer_id: &str) -> (r: Option<bool>)
        ensures
            self@.remotes.contains_key(peer_id@) ==> r == Some(self@.remotes[peer_id@].connected),
            !self@.remotes.contains_key(peer_id@) ==> r is None,
    {
        let key: String = peer_id.to_owned();
        remotes_connected(&self.remote_allocators, &key)
    }

    /// Whether the peer's allocation call of `num_blocks` with this reply gives
    /// blocks; `None` for an unknown peer.
    pub fn peer_grants_allocation(&mut self, peer_id: &str, num_blocks: usize, rpc: &Option<Result<AllocateResponse, String>>) -> (r: Option<bool>)
        requires
            dist_wf(old(self)@),
        ensures
            dist_wf(final(self)@),
            final(self)@ == old(self)@,
            old(self)@.remotes.contains_key(peer_id@)
                ==> r == Some(allocate_blocks(old(self)@.remotes[peer_id@], num_blocks, *rpc) is Some),
            !old(self)@.remotes.contains_key(peer_id@) ==> r is None,
    {
        let ghost v0 = self@;
        let key: String = peer_id.to_owned();
        match remotes_remove(&mut self.remote_allocators, &key) {
            Some(client) => {
                let g = client.grants_allocation(num_blocks, rpc);
                remotes_insert(&mut self.remote_allocators, key, client);
                assert(self@.remotes =~= v0.remotes);
                Some(g)
            },
            None => {
                assert(self@.remotes =~= v0.remotes);
                None
            },
        }
    }

    /// How many calls to a peer failed in a row; `None` for an unknown peer.
    pub fn peer_failure_count(&mut self, peer_id: &str) -> (r: Option<u32>)
        requires
            dist_wf(old(self)@),
        ensures
            dist_wf(final(self)@),
            final(self)@ == old(self)@,
            old(self)@.remotes.contains_key(peer_id@) ==> r == Some(old(self)@.remotes[peer_id@].failure_count),
            !old(self)@.remotes.contains_key(peer_id@) ==> r is None,
    {
        let ghost v0 = self@;
        let key: String = peer_id.to_owned();
        match remotes_remove(&mut self.remote_allocators, &key) {
            Some(client) => {
                let n = client.failure_count();
                remotes_insert(&mut self.remote_allocators, key, client);
                assert(self@.remotes =~= v0.remotes);
                Some(n)
            },
            None => {
                assert(self@.remotes =~= v0.remotes);
                None
            },
        }
    }

    /// The request for an allocation of `num_blocks` on a peer (under a fresh id,
    /// calling as the peer's client does); `None` for an unknown peer.
    pub fn remote_allocate_request(&mut self, peer_id: &str, num_blocks: usize) -> (r: Option<AllocateRequest>)
        requires
            dist_wf(old(self)@),
        ensures
            dist_wf(final(self)@),
            final(self)@ == old(self)@,
            old(self)@.remotes.contains_key(peer_id@) ==> r is Some && ({
                let q = r->0;
                &&& q.request_id@.len() == 36
                &&& q.num_blocks == num_blocks as u32
                &&& q.caller_node_id@ == old(self)@.remotes[peer_id@].caller_node_id
            }),
            !old(self)@.remotes.contains_key(peer_id@) ==> r is None,
    {
        let ghost v0 = self@;
        let key: String = peer_id.to_owned();
        match remotes_remove(&mut self.remote_allocators, &key) {
            Some(client) => {
                let q = client.allocate_request(num_blocks);
                remotes_insert(&mut self.remote_allocators, key, client);
                assert(self@.remotes =~= v0.remotes);
                Some(q)
            },
            None => {
                assert(self@.remotes =~= v0.remotes);
                None
            },
        }
    }

    /// The node selector.
    pub fn node_selector(&self) -> (r: &NodeSelector)
        ensures
            r@ == self@.selector,
    {
        &self.node_selector
    }

    /// Replace the capacity of a registered peer in the selector.
    pub fn update_peer_capacity(&mut self, peer_id: &str, capacity: NodeCapacity) -> (r: Result<(), SelectionError>)
        requires
            dist_wf(old(self)@),
        ensures
            dist_wf(final(self)@),
            final(self)@ == (DistView { selector: final(self)@.selector, ..old(self)@ }),
            !crate::node_selector::node_ids(old(self)@.selector.nodes).contains(peer_id@)
                ==> r == Err::<(), SelectionError>(SelectionError::NotRegistered) && final(self)@.selector == old(self)@.selector,
            crate::node_selector::node_ids(old(self)@.selector.nodes).contains(peer_id@) ==> r is Ok
                && final(self)@.selector == (SelectorView { nodes: upsert(old(self)@.selector.nodes, peer_id@, capacity), ..old(self)@.selector }),
    {
        self.node_selector.update_capacity(peer_id, capacity)
    }

    /// This node's id.
    pub fn node_id(&self) -> (r: &str)
        ensures
            r@ == self@.node_id,
    {
        self.node_id.as_str()
    }

    /// The counters.
    pub fn metrics(&self) -> (r: DistributedCacheMetrics)
        ensures
            r == self@.metrics,
    {
        self.metrics
    }
}

/// Once a release has stopped, the later blocks change nothing.
pub proof fn lemma_release_error_persists(m: Map<usize, Seq<char>>, o: OwnershipView, s: Seq<usize>, j: int)
    requires
        0 <= j <= s.len(),
        release_blocks(m, o, s.take(j)).2 is Some,
    ensures
        release_blocks(m, o, s) == release_blocks(m, o, s.take(j)),
    decreases s.len() - j,
{
    if j < s.len() {
        assert(s.take(j + 1).drop_last() == s.take(j));
        lemma_release_error_persists(m, o, s, j + 1);
    } else {
        assert(s.take(j) == s);
    }
}

} // verus!
