use vstd::prelude::*;
use crate::text::{decimal, decimal_string, push_chars};
use dashmap::DashMap;
use std::time::Instant;
use crate::concurrent_maps::{
    instant_now, node_blocks_get, node_blocks_insert, node_blocks_keys, node_blocks_new, node_blocks_table,
    owner_table, owners_get, owners_insert, owners_keys, owners_len, owners_new, owners_remove, stamp_keys,
    stamps_insert, stamps_new, stamps_remove,
};

verus! {

/// Why an ownership query failed.
#[derive(Debug, Clone, Copy, PartialEq, Eq, Structural)]
pub enum OwnershipError {
    /// The block is not registered to any node.
    NotRegistered { block_id: usize },
}

impl OwnershipError {
    /// The text of the error.
    pub open spec fn text(self) -> Seq<char> {
        match self {
            OwnershipError::NotRegistered { block_id } => "Block "@ + decimal(block_id as nat) + " not registered"@,
        }
    }

    /// The text of the error, as it is reported.
    pub fn message(&self) -> (r: String)
        ensures
            r@ == self.text(),
    {
        match self {
            OwnershipError::NotRegistered { block_id } => {
                let mut out = String::new();
                push_chars(&mut out, "Block ");
                let a = decimal_string(*block_id as u64);
                push_chars(&mut out, a.as_str());
                push_chars(&mut out, " not registered");
                out
            },
        }
    }
}

/// Abstract ownership state.
pub struct OwnershipView {
    pub owners: Map<usize, Seq<char>>,
    pub node_blocks: Map<Seq<char>, Seq<usize>>,
    pub stamped: Set<usize>,
}

pub open spec fn not_block(x: usize) -> spec_fn(usize) -> bool {
    |y: usize| y != x
}

/// The blocks listed under a node, or none.
pub open spec fn listed(nb: Map<Seq<char>, Seq<usize>>, n: Seq<char>) -> Seq<usize> {
    if nb.contains_key(n) { nb[n] } else { Seq::empty() }
}

/// Effect of registering `b` to `n`.
pub open spec fn register_effect(v: OwnershipView, b: usize, n: Seq<char>) -> OwnershipView {
    OwnershipView {
        owners: v.owners.insert(b, n),
        node_blocks: v.node_blocks.insert(n, listed(v.node_blocks, n).push(b)),
        stamped: v.stamped.insert(b),
    }
}

/// Effect of unregistering a registered block `b`.
pub open spec fn unregister_effect(v: OwnershipView, b: usize) -> OwnershipView {
    let o = v.owners[b];
    OwnershipView {
        owners: v.owners.remove(b),
        node_blocks: if v.node_blocks.contains_key(o) {
            v.node_blocks.insert(o, v.node_blocks[o].filter(not_block(b)))
        } else {
            v.node_blocks
        },
        stamped: v.stamped.remove(b),
    }
}

/// Effect of moving one block from `from` to `to`.
pub open spec fn migrate_one(v: OwnershipView, from: Seq<char>, to: Seq<char>, b: usize) -> OwnershipView {
    let nb1 = if v.node_blocks.contains_key(from) {
        v.node_blocks.insert(from, v.node_blocks[from].filter(not_block(b)))
    } else {
        v.node_blocks
    };
    OwnershipView {
        owners: v.owners.insert(b, to),
        node_blocks: nb1.insert(to, listed(nb1, to).push(b)),
        stamped: v.stamped,
    }
}

/// Effect of moving blocks one after another.
pub open spec fn migrate_effect(v: OwnershipView, from: Seq<char>, to: Seq<char>, bs: Seq<usize>) -> OwnershipView
    decreases bs.len(),
{
    if bs.len() == 0 {
        v
    } else {
        migrate_one(migrate_effect(v, from, to, bs.drop_last()), from, to, bs.last())
    }
}

/// Every registered block is listed under its owner.
pub open spec fn owners_listed(v: OwnershipView) -> bool {
    forall|b: usize| #[trigger] v.owners.contains_key(b) ==> listed(v.node_blocks, v.owners[b]).contains(b)
}

/// Tracks which node owns each cache block.
pub struct BlockOwnership {
    block_to_node: DashMap<usize, String>,
    node_to_blocks: DashMap<String, Vec<usize>>,
    ownership_timestamps: DashMap<usize, Instant>,
}

impl View for BlockOwnership {
    type V = OwnershipView;

    closed spec fn view(&self) -> OwnershipView {
        OwnershipView {
            owners: owner_table(self.block_to_node),
            node_blocks: node_blocks_table(self.node_to_blocks),
            stamped: stamp_keys(self.ownership_timestamps),
        }
    }
}

/// `v` with every `x` dropped.
pub fn without(v: &Vec<usize>, x: usize) -> (r: Vec<usize>)
    ensures
        r@ == v@.filter(not_block(x)),
{
    let mut out: Vec<usize> = Vec::new();
    let mut i: usize = 0;
    while i < v.len()
        invariant
            i <= v.len(),
            out@ == v@.take(i as int).filter(not_block(x)),
        decreases v.len() - i,
    {
        assert(v@.take(i as int + 1) == v@.take(i as int).push(v@[i as int]));
        proof {
            v@.take(i as int).lemma_filter_push(v@[i as int], not_block(x));
        }
        if v[i] != x {
            out.push(v[i]);
        }
        i = i + 1;
    }
    assert(v@.take(v.len() as int) == v@);
    out
}

impl BlockOwnership {
    /// No block registered.
    pub fn new() -> (r: Self)
        ensures
            r@.owners.dom().is_empty(),
            r@.node_blocks.dom().is_empty(),
            r@.stamped.is_empty(),
    {
        BlockOwnership {
            block_to_node: owners_new(),
            node_to_blocks: node_blocks_new(),
            ownership_timestamps: stamps_new(),
        }
    }

    fn listed_blocks(&self, node: &String) -> (r: Vec<usize>)
        ensures
            r@ == listed(self@.node_blocks, node@),
    {
        match node_blocks_get(&self.node_to_blocks, node) {
            Some(v) => v,
            None => Vec::new(),
        }
    }

    /// Register `block_id` as owned by `node_id`, listed at the end of the node's blocks.
    pub fn register_block(&mut self, block_id: usize, node_id: String) -> (r: Result<(), OwnershipError>)
        ensures
            r is Ok,
            final(self)@ == register_effect(old(self)@, block_id, node_id@),
            owners_listed(old(self)@) ==> owners_listed(final(self)@),
    {
        let ghost v0 = self@;
        owners_insert(&mut self.block_to_node, block_id, node_id.clone());
        let mut list = self.listed_blocks(&node_id);
        list.push(block_id);
        node_blocks_insert(&mut self.node_to_blocks, node_id, list);
        stamps_insert(&mut self.ownership_timestamps, block_id, instant_now());
        proof {
            lemma_register_keeps_listed(v0, block_id, self@.owners[block_id]);
        }
        Ok(())
    }

    /// Drop a block's registration; an unregistered block is refused.
    pub fn unregister_block(&mut self, block_id: usize) -> (r: Result<(), OwnershipError>)
        ensures
            !old(self)@.owners.contains_key(block_id) ==> r == Err::<(), OwnershipError>(OwnershipError::NotRegistered { block_id })
                && final(self)@ == old(self)@,
            old(self)@.owners.contains_key(block_id) ==> r is Ok && final(self)@ == unregister_effect(old(self)@, block_id),
            owners_listed(old(self)@) ==> owners_listed(final(self)@),
    {
        let ghost v0 = self@;
        let owner = match owners_get(&self.block_to_node, block_id) {
            Some(o) => o,
            None => return Err(OwnershipError::NotRegistered { block_id }),
        };
        owners_remove(&mut self.block_to_node, block_id);
        match node_blocks_get(&self.node_to_blocks, &owner) {
            Some(list) => {
                let kept = without(&list, block_id);
                node_blocks_insert(&mut self.node_to_blocks, owner, kept);
            },
            None => {},
        }
        stamps_remove(&mut self.ownership_timestamps, block_id);
        proof {
            lemma_unregister_keeps_listed(v0, block_id);
        }
        Ok(())
    }

    /// The node that owns a block; an unregistered block is refused.
    pub fn owner_of(&self, block_id: usize) -> (r: Result<String, OwnershipError>)
        ensures
            self@.owners.contains_key(block_id) ==> r is Ok && r->Ok_0@ == self@.owners[block_id],
            !self@.owners.contains_key(block_id) ==> r == Err::<String, OwnershipError>(OwnershipError::NotRegistered { block_id }),
    {
        match owners_get(&self.block_to_node, block_id) {
            Some(o) => Ok(o),
            None => Err(OwnershipError::NotRegistered { block_id }),
        }
    }

    /// The blocks listed under a node, in the order listed; none for an unknown node.
    pub fn blocks_owned_by(&self, node_id: &str) -> (r: Vec<usize>)
        ensures
            r@ == listed(self@.node_blocks, node_id@),
    {
        let n: String = node_id.to_owned();
        self.listed_blocks(&n)
    }

    /// Move blocks, one after another, from `from_node` to `to_node`.
    pub fn migrate_blocks(&mut self, from_node: String, to_node: String, blocks: Vec<usize>) -> (r: Result<(), OwnershipError>)
        ensures
            r is Ok,
            final(self)@ == migrate_effect(old(self)@, from_node@, to_node@, blocks@),
            owners_listed(old(self)@) ==> owners_listed(final(self)@),
    {
        let ghost v0 = self@;
        let mut i: usize = 0;
        while i < blocks.len()
            invariant
                i <= blocks.len(),
                self@ == migrate_effect(v0, from_node@, to_node@, blocks@.take(i as int)),
                owners_listed(v0) ==> owners_listed(self@),
            decreases blocks.len() - i,
        {
            let block_id = blocks[i];
            let ghost before = self@;
            assert(blocks@.take(i as int + 1).drop_last() == blocks@.take(i as int));
            assert(blocks@.take(i as int + 1).last() == block_id);
            owners_insert(&mut self.block_to_node, block_id, to_node.clone());
            match node_blocks_get(&self.node_to_blocks, &from_node) {
                Some(list) => {
                    let kept = without(&list, block_id);
                    node_blocks_insert(&mut self.node_to_blocks, from_node.clone(), kept);
                },
                None => {},
            }
            let mut list = self.listed_blocks(&to_node);
            list.push(block_id);
            node_blocks_insert(&mut self.node_to_blocks, to_node.clone(), list);
            proof {
                lemma_migrate_one_keeps_listed(before, from_node@, to_node@, block_id);
            }
            i = i + 1;
        }
        assert(blocks@.take(blocks.len() as int) == blocks@);
        Ok(())
    }

    /// Every node with a block list, each once, in the map's own order.
    pub fn all_owner_nodes(&self) -> (r: Vec<String>)
        ensures
            r@.map_values(|s: String| s@).no_duplicates(),
            r@.map_values(|s: String| s@).to_set() == self@.node_blocks.dom(),
    {
        node_blocks_keys(&self.node_to_blocks)
    }

    /// Every registered block, each once, in the map's own order.
    pub fn all_blocks(&self) -> (r: Vec<usize>)
        ensures
            r@.no_duplicates(),
            r@.to_set() == self@.owners.dom(),
    {
        owners_keys(&self.block_to_node)
    }

    /// Whether `node_id` owns a block.
    pub fn is_owned_by(&self, block_id: usize, node_id: &str) -> (r: bool)
        ensures
            r == (self@.owners.contains_key(block_id) && self@.owners[block_id] == node_id@),
    {
        match owners_get(&self.block_to_node, block_id) {
            Some(o) => {
                let n: String = node_id.to_owned();
                o == n
            },
            None => false,
        }
    }

    /// Number of registered blocks.
    pub fn total_blocks(&self) -> (r: usize)
        ensures
            r == self@.owners.dom().len(),
    {
        owners_len(&self.block_to_node)
    }
}

pub proof fn lemma_register_keeps_listed(v: OwnershipView, b: usize, n: Seq<char>)
    ensures
        owners_listed(v) ==> owners_listed(register_effect(v, b, n)),
{
    let w = register_effect(v, b, n);
    if owners_listed(v) {
        assert forall|c: usize| #[trigger] w.owners.contains_key(c) implies listed(w.node_blocks, w.owners[c]).contains(c) by {
            if c == b {
                assert(listed(w.node_blocks, n).last() == b);
                assert(listed(w.node_blocks, n)[listed(w.node_blocks, n).len() - 1] == b);
            } else {
                let o = v.owners[c];
                assert(listed(v.node_blocks, o).contains(c));
                let k = listed(v.node_blocks, o).index_of(c);
                if o == n {
                    assert(listed(w.node_blocks, o)[k] == c);
                } else {
                    assert(listed(w.node_blocks, o) == listed(v.node_blocks, o));
                }
            }
        }
    }
}

pub proof fn lemma_unregister_keeps_listed(v: OwnershipView, b: usize)
    ensures
        owners_listed(v) && v.owners.contains_key(b) ==> owners_listed(unregister_effect(v, b)),
{
    let w = unregister_effect(v, b);
    if owners_listed(v) && v.owners.contains_key(b) {
        let o = v.owners[b];
        assert forall|c: usize| #[trigger] w.owners.contains_key(c) implies listed(w.node_blocks, w.owners[c]).contains(c) by {
            let oc = v.owners[c];
            assert(listed(v.node_blocks, oc).contains(c));
            if oc == o && v.node_blocks.contains_key(o) {
                let s = v.node_blocks[o];
                let k = s.index_of(c);
                s.lemma_filter_contains(not_block(b), k);
            }
        }
    }
}

pub proof fn lemma_migrate_one_keeps_listed(v: OwnershipView, from: Seq<char>, to: Seq<char>, b: usize)
    ensures
        owners_listed(v) ==> owners_listed(migrate_one(v, from, to, b)),
{
    let w = migrate_one(v, from, to, b);
    let nb1 = if v.node_blocks.contains_key(from) {
        v.node_blocks.insert(from, v.node_blocks[from].filter(not_block(b)))
    } else {
        v.node_blocks
    };
    if owners_listed(v) {
        assert forall|c: usize| #[trigger] w.owners.contains_key(c) implies listed(w.node_blocks, w.owners[c]).contains(c) by {
            if c == b {
                assert(listed(w.node_blocks, to)[listed(w.node_blocks, to).len() - 1] == b);
            } else {
                let oc = v.owners[c];
                assert(listed(v.node_blocks, oc).contains(c));
                let s = listed(v.node_blocks, oc);
                let k = s.index_of(c);
                if oc == from && v.node_blocks.contains_key(from) {
                    s.lemma_filter_contains(not_block(b), k);
                }
                assert(listed(nb1, oc).contains(c));
                let s1 = listed(nb1, oc);
                let k1 = s1.index_of(c);
                if oc == to {
                    assert(listed(w.node_blocks, oc)[k1] == c);
                } else {
                    assert(listed(w.node_blocks, oc) == s1);
                }
            }
        }
    }
}

} // verus!
