use vstd::prelude::*;
use dashmap::DashMap;
use std::collections::VecDeque;
use std::time::Instant;
use crate::concurrent_maps::instant_now;
use crate::text::{decimal, decimal_string, push_chars};

verus! {

/// A unit of KV cache memory.
#[derive(Debug, Clone)]
pub struct KVBlock {
    pub id: usize,
    pub size_bytes: usize,
    pub allocated: bool,
    /// Request that owns this block.
    pub owner: Option<String>,
    pub created_at: Instant,
}

/// Abstract block (its creation time is not read).
pub struct BlockView {
    pub id: usize,
    pub size_bytes: usize,
    pub allocated: bool,
    pub owner: Option<Seq<char>>,
}

impl View for KVBlock {
    type V = BlockView;

    open spec fn view(&self) -> BlockView {
        BlockView {
            id: self.id,
            size_bytes: self.size_bytes,
            allocated: self.allocated,
            owner: match self.owner {
                Some(s) => Some(s@),
                None => None,
            },
        }
    }
}

/// What a `DashMap<usize, KVBlock>` holds, by views.
pub uninterp spec fn block_table(m: DashMap<usize, KVBlock>) -> Map<usize, BlockView>;

/// `DashMap::new`: an empty map.
#[verifier::external_body]
fn blocks_new() -> (r: DashMap<usize, KVBlock>)
    ensures
        block_table(r).dom().is_empty(),
{
    DashMap::new()
}

/// `DashMap::insert`: the key now maps to the value, others are unchanged.
#[verifier::external_body]
fn blocks_insert(m: &mut DashMap<usize, KVBlock>, k: usize, v: KVBlock)
    ensures
        block_table(*final(m)) == block_table(*old(m)).insert(k, v@),
{
    m.insert(k, v);
}

/// `DashMap::get`, cloning the block found.
#[verifier::external_body]
fn blocks_get(m: &DashMap<usize, KVBlock>, k: usize) -> (r: Option<KVBlock>)
    ensures
        block_table(*m).contains_key(k) ==> r is Some && r->0@ == block_table(*m)[k],
        !block_table(*m).contains_key(k) ==> r is None,
{
    m.get(&k).map(|e| e.value().clone())
}

/// Cache statistics (the fragmentation and hit ratios are derived from these counts).
#[derive(Debug, Clone, Copy, PartialEq, Eq)]
pub struct CacheStats {
    pub total_blocks: usize,
    pub allocated_blocks: usize,
    pub free_blocks: usize,
    pub total_allocated_bytes: usize,
    pub total_free_bytes: usize,
}

/// Why the allocator refused a request.
#[derive(Debug, Clone, Copy, PartialEq, Eq, Structural)]
pub enum AllocatorError {
    /// The cache is smaller than one block.
    CacheTooSmall,
    /// Fewer free blocks than requested.
    Insufficient { requested: usize, available: usize },
    /// No block has this id.
    BlockNotFound,
}

impl AllocatorError {
    /// The text of the error.
    pub open spec fn text(self) -> Seq<char> {
        match self {
            AllocatorError::CacheTooSmall => "Total cache size must be >= block size"@,
            AllocatorError::Insufficient { requested, available } => "Insufficient free blocks: "@
                + decimal(requested as nat) + " requested, "@ + decimal(available as nat) + " available"@,
            AllocatorError::BlockNotFound => "Block not found"@,
        }
    }

    /// The text of the error, as it is reported.
    pub fn message(&self) -> (r: String)
        ensures
            r@ == self.text(),
    {
        match self {
            AllocatorError::CacheTooSmall => String::from_str("Total cache size must be >= block size"),
            AllocatorError::Insufficient { requested, available } => {
                let mut out = String::new();
                push_chars(&mut out, "Insufficient free blocks: ");
                let a = decimal_string(*requested as u64);
                push_chars(&mut out, a.as_str());
                push_chars(&mut out, " requested, ");
                let b = decimal_string(*available as u64);
                push_chars(&mut out, b.as_str());
                push_chars(&mut out, " available");
                out
            },
            AllocatorError::BlockNotFound => String::from_str("Block not found"),
        }
    }
}

/// Abstract allocator.
pub struct AllocatorView {
    pub total_bytes: usize,
    pub block_size: usize,
    pub blocks: Map<usize, BlockView>,
    pub free_list: Seq<usize>,
    pub block_counter: usize,
    pub total_allocated: usize,
}

/// Mark each listed block that exists as allocated (`flag`) or released.
pub open spec fn mark_blocks(m: Map<usize, BlockView>, ids: Seq<usize>, flag: bool) -> Map<usize, BlockView>
    decreases ids.len(),
{
    if ids.len() == 0 {
        m
    } else {
        let m0 = mark_blocks(m, ids.drop_last(), flag);
        let k = ids.last();
        if m0.contains_key(k) {
            m0.insert(k, BlockView {
                allocated: flag,
                owner: if flag { m0[k].owner } else { None },
                ..m0[k]
            })
        } else {
            m0
        }
    }
}

/// Number of allocated blocks among ids `0..k`.
pub open spec fn count_allocated(m: Map<usize, BlockView>, k: nat) -> nat
    decreases k,
{
    if k == 0 {
        0
    } else {
        count_allocated(m, (k - 1) as nat) + if m.contains_key((k - 1) as usize) && m[(k - 1) as usize].allocated {
            1nat
        } else {
            0nat
        }
    }
}

pub proof fn lemma_count_allocated_bounded(m: Map<usize, BlockView>, k: nat)
    ensures
        count_allocated(m, k) <= k,
    decreases k,
{
    if k > 0 {
        lemma_count_allocated_bounded(m, (k - 1) as nat);
    }
}

/// Marking keeps the set of block ids and each block's id and size.
pub proof fn lemma_mark_keeps_shape(m: Map<usize, BlockView>, ids: Seq<usize>, flag: bool)
    ensures
        mark_blocks(m, ids, flag).dom() == m.dom(),
        forall|k: usize| #[trigger] m.contains_key(k) ==> mark_blocks(m, ids, flag)[k].id == m[k].id
            && mark_blocks(m, ids, flag)[k].size_bytes == m[k].size_bytes,
    decreases ids.len(),
{
    if ids.len() > 0 {
        lemma_mark_keeps_shape(m, ids.drop_last(), flag);
        let m0 = mark_blocks(m, ids.drop_last(), flag);
        if m0.contains_key(ids.last()) {
            assert(mark_blocks(m, ids, flag).dom() =~= m.dom());
        }
    }
}

/// The free list holds each unallocated block exactly once and no allocated block.
/// It holds from creation on, through allocations and through releases of distinct
/// allocated blocks (releasing a block twice lists it twice).
pub open spec fn free_list_exact(v: AllocatorView) -> bool {
    &&& v.free_list.no_duplicates()
    &&& forall|k: usize| #[trigger] v.blocks.contains_key(k) ==> (v.free_list.contains(k) <==> !v.blocks[k].allocated)
}

/// Marking a block changes its allocation flag when it is listed, and nothing of it
/// otherwise.
pub proof fn lemma_mark_effect(m: Map<usize, BlockView>, ids: Seq<usize>, flag: bool, k: usize)
    requires
        m.contains_key(k),
    ensures
        mark_blocks(m, ids, flag).contains_key(k),
        ids.contains(k) ==> mark_blocks(m, ids, flag)[k].allocated == flag,
        !ids.contains(k) ==> mark_blocks(m, ids, flag)[k] == m[k],
    decreases ids.len(),
{
    if ids.len() > 0 {
        lemma_mark_effect(m, ids.drop_last(), flag, k);
        if k != ids.last() {
            if ids.contains(k) {
                let i = choose|i: int| 0 <= i < ids.len() && ids[i] == k;
                assert(ids.drop_last()[i] == k);
            }
            if ids.drop_last().contains(k) {
                let i = choose|i: int| 0 <= i < ids.drop_last().len() && ids.drop_last()[i] == k;
                assert(ids[i] == k);
            }
        } else {
            assert(ids[ids.len() - 1] == k);
        }
    }
}

proof fn lemma_count_same_below(m: Map<usize, BlockView>, k: usize, b: BlockView, n: nat)
    requires
        n <= k,
    ensures
        count_allocated(m.insert(k, b), n) == count_allocated(m, n),
    decreases n,
{
    if n > 0 {
        lemma_count_same_below(m, k, b, (n - 1) as nat);
    }
}

proof fn lemma_count_flip(m: Map<usize, BlockView>, k: usize, b: BlockView, n: nat)
    requires
        m.contains_key(k),
        !m[k].allocated,
        b.allocated,
        k < n,
        n <= usize::MAX,
    ensures
        count_allocated(m.insert(k, b), n) == count_allocated(m, n) + 1,
    decreases n,
{
    let last = (n - 1) as usize;
    assert(last == n - 1);
    if n - 1 == k {
        lemma_count_same_below(m, k, b, (n - 1) as nat);
        assert(m.insert(k, b)[last].allocated);
    } else {
        lemma_count_flip(m, k, b, (n - 1) as nat);
        assert(last != k);
        assert(m.insert(k, b).contains_key(last) == m.contains_key(last));
        if m.contains_key(last) {
            assert(m.insert(k, b)[last] == m[last]);
        }
    }
}

/// Allocating distinct unallocated blocks below `n` raises the allocated count below
/// `n` by their number.
pub proof fn lemma_count_mark_allocated(m: Map<usize, BlockView>, ids: Seq<usize>, n: nat)
    requires
        ids.no_duplicates(),
        n <= usize::MAX,
        forall|i: int| 0 <= i < ids.len() ==> m.contains_key(#[trigger] ids[i]) && !m[ids[i]].allocated && ids[i] < n,
    ensures
        count_allocated(mark_blocks(m, ids, true), n) == count_allocated(m, n) + ids.len(),
    decreases ids.len(),
{
    if ids.len() > 0 {
        let d = ids.drop_last();
        assert forall|i: int| 0 <= i < d.len() implies m.contains_key(#[trigger] d[i]) && !m[d[i]].allocated && d[i] < n by {
            assert(d[i] == ids[i]);
        }
        lemma_count_mark_allocated(m, d, n);
        let k = ids.last();
        assert(ids[ids.len() - 1] == k);
        lemma_mark_effect(m, d, true, k);
        if d.contains(k) {
            let i = choose|i: int| 0 <= i < d.len() && d[i] == k;
            assert(ids[i] == ids[ids.len() - 1]);
        }
        let m0 = mark_blocks(m, d, true);
        lemma_count_flip(m0, k, BlockView { allocated: true, owner: m0[k].owner, ..m0[k] }, n);
    }
}

/// KV cache allocator: fixed-size blocks handed out from a free list.
pub struct KVCacheAllocator {
    total_bytes: usize,
    block_size: usize,
    blocks: DashMap<usize, KVBlock>,
    free_list: VecDeque<usize>,
    block_counter: usize,
    total_allocated: usize,
    total_evicted: usize,
}

impl View for KVCacheAllocator {
    type V = AllocatorView;

    closed spec fn view(&self) -> AllocatorView {
        AllocatorView {
            total_bytes: self.total_bytes,
            block_size: self.block_size,
            blocks: block_table(self.blocks),
            free_list: self.free_list@,
            block_counter: self.block_counter,
            total_allocated: self.total_allocated,
        }
    }
}

/// The blocks are exactly ids `0..block_counter`, each of the configured size, and
/// every id on the free list is one of them.
pub open spec fn allocator_wf(v: AllocatorView) -> bool {
    &&& v.block_size > 0
    &&& v.block_counter <= v.total_bytes / v.block_size
    &&& forall|k: usize| #[trigger] v.blocks.contains_key(k) <==> k < v.block_counter
    &&& forall|k: usize| #[trigger] v.blocks.contains_key(k) ==> v.blocks[k].id == k && v.blocks[k].size_bytes == v.block_size
    &&& forall|i: int| 0 <= i < v.free_list.len() ==> (#[trigger] v.free_list[i]) < v.block_counter
}

impl KVCacheAllocator {
    /// A cache of `total_bytes / block_size` free blocks, ids from 0; a cache smaller
    /// than one block is refused.
    pub fn new(total_bytes: usize, block_size: usize) -> (r: Result<Self, AllocatorError>)
        requires
            block_size > 0,
        ensures
            total_bytes < block_size ==> r == Err::<Self, AllocatorError>(AllocatorError::CacheTooSmall),
            total_bytes >= block_size ==> r is Ok && ({
                let v = r->Ok_0@;
                let n = total_bytes / block_size;
                &&& allocator_wf(v)
                &&& v.total_bytes == total_bytes
                &&& v.block_size == block_size
                &&& v.block_counter == n
                &&& v.free_list == Seq::new(n as nat, |i: int| i as usize)
                &&& v.total_allocated == 0
                &&& forall|k: usize| #[trigger] v.blocks.contains_key(k) ==> !v.blocks[k].allocated && v.blocks[k].owner is None
                &&& free_list_exact(v)
            }),
    {
        if total_bytes < block_size {
            return Err(AllocatorError::CacheTooSmall);
        }
        let num_blocks = total_bytes / block_size;
        let mut blocks = blocks_new();
        let mut free_list: VecDeque<usize> = VecDeque::new();
        let mut i: usize = 0;
        while i < num_blocks
            invariant
                i <= num_blocks,
                forall|k: usize| #[trigger] block_table(blocks).contains_key(k) <==> k < i,
                forall|k: usize| #[trigger] block_table(blocks).contains_key(k) ==> block_table(blocks)[k] == (BlockView {
                    id: k, size_bytes: block_size, allocated: false, owner: None }),
                free_list@ == Seq::new(i as nat, |j: int| j as usize),
            decreases num_blocks - i,
        {
            let block = KVBlock { id: i, size_bytes: block_size, allocated: false, owner: None, created_at: instant_now() };
            blocks_insert(&mut blocks, i, block);
            free_list.push_back(i);
            assert(free_list@ =~= Seq::new(i as nat + 1, |j: int| j as usize));
            i = i + 1;
        }
        let r = KVCacheAllocator {
            total_bytes,
            block_size,
            blocks,
            free_list,
            block_counter: num_blocks,
            total_allocated: 0,
            total_evicted: 0,
        };
        proof {
            let v = r@;
            assert forall|k: usize| #[trigger] v.blocks.contains_key(k) implies (v.free_list.contains(k) <==> !v.blocks[k].allocated) by {
                assert(v.free_list[k as int] == k);
            }
        }
        Ok(r)
    }

    /// Take `num_blocks` blocks from the front of the free list and mark them
    /// allocated; refused when fewer are free.
    pub fn allocate(&mut self, num_blocks: usize) -> (r: Result<Vec<usize>, AllocatorError>)
        requires
            allocator_wf(old(self)@),
        ensures
            allocator_wf(final(self)@),
            old(self)@.free_list.len() < num_blocks ==> r == Err::<Vec<usize>, AllocatorError>(AllocatorError::Insufficient {
                requested: num_blocks, available: old(self)@.free_list.len() as usize }) && final(self)@ == old(self)@,
            old(self)@.free_list.len() >= num_blocks ==> r is Ok && ({
                let ids = old(self)@.free_list.take(num_blocks as int);
                &&& r->Ok_0@ == ids
                &&& final(self)@ == (AllocatorView {
                    blocks: mark_blocks(old(self)@.blocks, ids, true),
                    free_list: old(self)@.free_list.skip(num_blocks as int),
                    total_allocated: old(self)@.total_allocated.wrapping_add(num_blocks),
                    ..old(self)@
                })
                &&& free_list_exact(old(self)@) ==> {
                    &&& ids.no_duplicates()
                    &&& forall|i: int| 0 <= i < ids.len() ==> !old(self)@.blocks[#[trigger] ids[i]].allocated
                        && final(self)@.blocks[ids[i]].allocated
                    &&& count_allocated(final(self)@.blocks, final(self)@.block_counter as nat)
                        == count_allocated(old(self)@.blocks, old(self)@.block_counter as nat) + num_blocks
                    &&& free_list_exact(final(self)@)
                }
            }),
    {
        if self.free_list.len() < num_blocks {
            return Err(AllocatorError::Insufficient { requested: num_blocks, available: self.free_list.len() });
        }
        let ghost v0 = self@;
        let mut allocated: Vec<usize> = Vec::new();
        let mut i: usize = 0;
        while i < num_blocks
            invariant
                i <= num_blocks,
                v0.free_list.len() >= num_blocks,
                allocator_wf(v0),
                self.free_list@ == v0.free_list.skip(i as int),
                allocated@ == v0.free_list.take(i as int),
                block_table(self.blocks) == mark_blocks(v0.blocks, v0.free_list.take(i as int), true),
                self.total_bytes == v0.total_bytes,
                self.block_size == v0.block_size,
                self.block_counter == v0.block_counter,
                self.total_allocated == v0.total_allocated,
            decreases num_blocks - i,
        {
            let ghost before_free = self.free_list@;
            let popped = self.free_list.pop_front();
            match popped {
                Some(block_id) => {
                    assert(block_id == v0.free_list[i as int]);
                    assert(v0.free_list.take(i as int + 1) == v0.free_list.take(i as int).push(block_id));
                    assert(v0.free_list.take(i as int + 1).drop_last() == v0.free_list.take(i as int));
                    assert(v0.free_list.take(i as int + 1).last() == block_id);
                    assert(self.free_list@ =~= v0.free_list.skip(i as int + 1));
                    proof {
                        lemma_mark_keeps_shape(v0.blocks, v0.free_list.take(i as int), true);
                    }
                    match blocks_get(&self.blocks, block_id) {
                        Some(mut block) => {
                            block.allocated = true;
                            blocks_insert(&mut self.blocks, block_id, block);
                            allocated.push(block_id);
                        },
                        None => {
                            assert(false);
                        },
                    }
                },
                None => {
                    assert(false);
                },
            }
            i = i + 1;
        }
        self.total_allocated = self.total_allocated.wrapping_add(num_blocks);
        proof {
            lemma_mark_keeps_shape(v0.blocks, v0.free_list.take(num_blocks as int), true);
            if free_list_exact(v0) {
                lemma_allocate_keeps_exact(v0, num_blocks as int);
            }
            assert forall|j: int| 0 <= j < self.free_list@.len() implies (#[trigger] self.free_list@[j]) < self.block_counter by {
                assert(self.free_list@[j] == v0.free_list[j + num_blocks]);
            }
        }
        Ok(allocated)
    }

    /// Release blocks: each listed block that exists is marked free, loses its owner
    /// and goes to the back of the free list; unknown ids are skipped.
    pub fn deallocate(&mut self, block_ids: &[usize]) -> (r: Result<(), AllocatorError>)
        requires
            allocator_wf(old(self)@),
        ensures
            allocator_wf(final(self)@),
            r is Ok,
            final(self)@ == (AllocatorView {
                blocks: mark_blocks(old(self)@.blocks, block_ids@, false),
                free_list: old(self)@.free_list + block_ids@.filter(|k: usize| old(self)@.blocks.contains_key(k)),
                ..old(self)@
            }),
            free_list_exact(old(self)@) && releases_allocated(old(self)@, block_ids@) ==> free_list_exact(final(self)@),
    {
        let ghost v0 = self@;
        let ghost known = |k: usize| v0.blocks.contains_key(k);
        let mut i: usize = 0;
        while i < block_ids.len()
            invariant
                i <= block_ids.len(),
                allocator_wf(v0),
                known == (|k: usize| v0.blocks.contains_key(k)),
                self.free_list@ == v0.free_list + block_ids@.take(i as int).filter(known),
                block_table(self.blocks) == mark_blocks(v0.blocks, block_ids@.take(i as int), false),
                self.total_bytes == v0.total_bytes,
                self.block_size == v0.block_size,
                self.block_counter == v0.block_counter,
                self.total_allocated == v0.total_allocated,
            decreases block_ids.len() - i,
        {
            let block_id = block_ids[i];
            assert(block_ids@.take(i as int + 1) == block_ids@.take(i as int).push(block_id));
            assert(block_ids@.take(i as int + 1).drop_last() == block_ids@.take(i as int));
            assert(block_ids@.take(i as int + 1).last() == block_id);
            proof {
                block_ids@.take(i as int).lemma_filter_push(block_id, known);
                lemma_mark_keeps_shape(v0.blocks, block_ids@.take(i as int), false);
            }
            match blocks_get(&self.blocks, block_id) {
                Some(mut block) => {
                    block.allocated = false;
                    block.owner = None;
                    blocks_insert(&mut self.blocks, block_id, block);
                    self.free_list.push_back(block_id);
                    assert(self.free_list@ =~= v0.free_list + block_ids@.take(i as int + 1).filter(known));
                },
                None => {},
            }
            i = i + 1;
        }
        assert(block_ids@.take(block_ids.len() as int) == block_ids@);
        proof {
            if free_list_exact(v0) && releases_allocated(v0, block_ids@) {
                lemma_release_keeps_exact(v0, block_ids@);
            }
            lemma_mark_keeps_shape(v0.blocks, block_ids@, false);
            let added = block_ids@.filter(known);
            assert forall|j: int| 0 <= j < self.free_list@.len() implies (#[trigger] self.free_list@[j]) < self.block_counter by {
                if j >= v0.free_list.len() {
                    let x = added[j - v0.free_list.len()];
                    assert(self.free_list@[j] == x);
                    block_ids@.lemma_filter_pred(known, j - v0.free_list.len());
                }
            }
        }
        Ok(())
    }

    /// Block counts and byte totals.
    pub fn stats(&self) -> (r: CacheStats)
        requires
            allocator_wf(self@),
        ensures
            r.total_blocks == self@.block_counter,
            r.allocated_blocks == count_allocated(self@.blocks, self@.block_counter as nat),
            r.free_blocks == self@.free_list.len(),
            r.total_allocated_bytes == (r.allocated_blocks as usize).wrapping_mul(self@.block_size),
            r.total_free_bytes == (r.free_blocks as usize).wrapping_mul(self@.block_size),
    {
        let mut allocated_blocks: usize = 0;
        let mut k: usize = 0;
        while k < self.block_counter
            invariant
                k <= self.block_counter,
                allocated_blocks == count_allocated(block_table(self.blocks), k as nat),
            decreases self.block_counter - k,
        {
            proof {
                lemma_count_allocated_bounded(block_table(self.blocks), k as nat);
            }
            match blocks_get(&self.blocks, k) {
                Some(b) => {
                    if b.allocated {
                        allocated_blocks = allocated_blocks + 1;
                    }
                },
                None => {},
            }
            k = k + 1;
        }
        let free_blocks = self.free_list.len();
        CacheStats {
            total_blocks: self.block_counter,
            allocated_blocks,
            free_blocks,
            total_allocated_bytes: allocated_blocks.wrapping_mul(self.block_size),
            total_free_bytes: free_blocks.wrapping_mul(self.block_size),
        }
    }

    /// Record that a request owns a block; an unknown block is refused.
    pub fn mark_owner(&mut self, block_id: usize, request_id: String) -> (r: Result<(), AllocatorError>)
        requires
            allocator_wf(old(self)@),
        ensures
            allocator_wf(final(self)@),
            !old(self)@.blocks.contains_key(block_id) ==> r == Err::<(), AllocatorError>(AllocatorError::BlockNotFound)
                && final(self)@ == old(self)@,
            old(self)@.blocks.contains_key(block_id) ==> r is Ok && final(self)@ == (AllocatorView {
                blocks: old(self)@.blocks.insert(block_id, BlockView { owner: Some(request_id@), ..old(self)@.blocks[block_id] }),
                ..old(self)@
            }),
    {
        match blocks_get(&self.blocks, block_id) {
            Some(mut block) => {
                block.owner = Some(request_id);
                blocks_insert(&mut self.blocks, block_id, block);
                Ok(())
            },
            None => Err(AllocatorError::BlockNotFound),
        }
    }
}

/// Allocating from an exact free list hands out distinct free blocks, raises the
/// allocated count by their number, and leaves the free list exact.
pub proof fn lemma_allocate_keeps_exact(v: AllocatorView, n: int)
    requires
        allocator_wf(v),
        free_list_exact(v),
        0 <= n <= v.free_list.len(),
    ensures
        ({
            let ids = v.free_list.take(n);
            let v1 = AllocatorView {
                blocks: mark_blocks(v.blocks, ids, true),
                free_list: v.free_list.skip(n),
                ..v
            };
            &&& ids.no_duplicates()
            &&& forall|i: int| 0 <= i < ids.len() ==> !v.blocks[#[trigger] ids[i]].allocated && v1.blocks[ids[i]].allocated
            &&& count_allocated(v1.blocks, v.block_counter as nat) == count_allocated(v.blocks, v.block_counter as nat) + n
            &&& free_list_exact(v1)
        }),
{
    let ids = v.free_list.take(n);
    let rest = v.free_list.skip(n);
    let m1 = mark_blocks(v.blocks, ids, true);
    assert forall|i: int, j: int| 0 <= i < ids.len() && 0 <= j < ids.len() && i != j implies ids[i] != ids[j] by {
        assert(ids[i] == v.free_list[i] && ids[j] == v.free_list[j]);
    }
    assert forall|i: int, j: int| 0 <= i < rest.len() && 0 <= j < rest.len() && i != j implies rest[i] != rest[j] by {
        assert(rest[i] == v.free_list[i + n] && rest[j] == v.free_list[j + n]);
    }
    assert forall|i: int| 0 <= i < ids.len() implies !v.blocks[#[trigger] ids[i]].allocated && m1[ids[i]].allocated by {
        let k = ids[i];
        assert(k == v.free_list[i]);
        assert(v.blocks.contains_key(k));
        assert(v.free_list.contains(k));
        lemma_mark_effect(v.blocks, ids, true, k);
        assert(ids.contains(k));
    }
    assert forall|i: int| 0 <= i < ids.len() implies v.blocks.contains_key(#[trigger] ids[i]) && !v.blocks[ids[i]].allocated
        && ids[i] < v.block_counter as nat by {
        assert(ids[i] == v.free_list[i]);
    }
    lemma_count_mark_allocated(v.blocks, ids, v.block_counter as nat);
    lemma_mark_keeps_shape(v.blocks, ids, true);
    assert forall|k: usize| #[trigger] m1.contains_key(k) implies (rest.contains(k) <==> !m1[k].allocated) by {
        lemma_mark_effect(v.blocks, ids, true, k);
        if ids.contains(k) {
            let i = choose|i: int| 0 <= i < ids.len() && ids[i] == k;
            if rest.contains(k) {
                let j = choose|j: int| 0 <= j < rest.len() && rest[j] == k;
                assert(v.free_list[i] == v.free_list[j + n]);
            }
        } else {
            if rest.contains(k) {
                let j = choose|j: int| 0 <= j < rest.len() && rest[j] == k;
                assert(v.free_list[j + n] == k);
            }
            if v.free_list.contains(k) {
                let j = choose|j: int| 0 <= j < v.free_list.len() && v.free_list[j] == k;
                if j < n {
                    assert(ids[j] == k);
                } else {
                    assert(rest[j - n] == k);
                }
            }
        }
    }
}

/// `ids` are distinct blocks, each allocated.
pub open spec fn releases_allocated(v: AllocatorView, ids: Seq<usize>) -> bool {
    &&& ids.no_duplicates()
    &&& forall|i: int| 0 <= i < ids.len() ==> v.blocks.contains_key(#[trigger] ids[i]) && v.blocks[ids[i]].allocated
}

/// Releasing distinct allocated blocks keeps an exact free list exact.
pub proof fn lemma_release_keeps_exact(v: AllocatorView, ids: Seq<usize>)
    requires
        free_list_exact(v),
        releases_allocated(v, ids),
    ensures
        free_list_exact(AllocatorView {
            blocks: mark_blocks(v.blocks, ids, false),
            free_list: v.free_list + ids.filter(|k: usize| v.blocks.contains_key(k)),
            ..v
        }),
{
    let known = |k: usize| v.blocks.contains_key(k);
    assert forall|i: int| 0 <= i < ids.len() implies #[trigger] known(ids[i]) by {}
    lemma_filter_all(ids, known);
    let f = v.free_list + ids;
    let m1 = mark_blocks(v.blocks, ids, false);
    assert forall|i: int, j: int| 0 <= i < f.len() && 0 <= j < f.len() && i != j implies f[i] != f[j] by {
        let n = v.free_list.len() as int;
        if i < n && j >= n {
            let k = ids[j - n];
            if f[i] == f[j] {
                assert(v.free_list[i] == k);
                assert(v.free_list.contains(k));
                assert(v.blocks[k].allocated);
            }
        } else if i >= n && j < n {
            let k = ids[i - n];
            if f[i] == f[j] {
                assert(v.free_list[j] == k);
                assert(v.free_list.contains(k));
                assert(v.blocks[k].allocated);
            }
        } else if i >= n && j >= n {
            assert(f[i] == ids[i - n] && f[j] == ids[j - n]);
        } else {
            assert(f[i] == v.free_list[i] && f[j] == v.free_list[j]);
        }
    }
    lemma_mark_keeps_shape(v.blocks, ids, false);
    assert forall|k: usize| #[trigger] m1.contains_key(k) implies (f.contains(k) <==> !m1[k].allocated) by {
        lemma_mark_effect(v.blocks, ids, false, k);
        let n = v.free_list.len() as int;
        if ids.contains(k) {
            let i = choose|i: int| 0 <= i < ids.len() && ids[i] == k;
            assert(f[n + i] == k);
        } else {
            if f.contains(k) {
                let j = choose|j: int| 0 <= j < f.len() && f[j] == k;
                if j >= n {
                    assert(ids[j - n] == k);
                } else {
                    assert(v.free_list[j] == k);
                }
            }
            if v.free_list.contains(k) {
                let j = choose|j: int| 0 <= j < v.free_list.len() && v.free_list[j] == k;
                assert(f[j] == k);
            }
        }
    }
}

/// Releasing what an allocation returned gives the free list its length back.
pub proof fn lemma_allocate_then_release_keeps_free_count(v: AllocatorView, n: int)
    requires
        allocator_wf(v),
        0 <= n <= v.free_list.len(),
    ensures
        ({
            let ids = v.free_list.take(n);
            let v1 = AllocatorView {
                blocks: mark_blocks(v.blocks, ids, true),
                free_list: v.free_list.skip(n),
                ..v
            };
            (v1.free_list + ids.filter(|k: usize| v1.blocks.contains_key(k))).len() == v.free_list.len()
        }),
{
    let ids = v.free_list.take(n);
    let m1 = mark_blocks(v.blocks, ids, true);
    lemma_mark_keeps_shape(v.blocks, ids, true);
    let p = |k: usize| m1.contains_key(k);
    assert forall|i: int| 0 <= i < ids.len() implies #[trigger] p(ids[i]) by {
        assert(ids[i] == v.free_list[i]);
    }
    lemma_filter_all(ids, p);
}

proof fn lemma_filter_all(s: Seq<usize>, p: spec_fn(usize) -> bool)
    requires
        forall|i: int| 0 <= i < s.len() ==> #[trigger] p(s[i]),
    ensures
        s.filter(p) == s,
    decreases s.len(),
{
    if s.len() > 0 {
        assert forall|i: int| 0 <= i < s.drop_last().len() implies #[trigger] p(s.drop_last()[i]) by {
            assert(s.drop_last()[i] == s[i]);
        }
        lemma_filter_all(s.drop_last(), p);
        s.drop_last().lemma_filter_push(s.last(), p);
        assert(p(s[s.len() - 1]));
        assert(s.drop_last().push(s.last()) == s);
    }
}

} // verus!
