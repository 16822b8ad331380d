use vstd::prelude::*;
use dashmap::{DashMap, DashSet};
use std::time::Instant;
use crate::remote_allocator::{RemoteAllocator, RemoteView};

verus! {

#[verifier::external_type_specification]
#[verifier::external_body]
#[verifier::reject_recursive_types(K)]
#[verifier::reject_recursive_types(V)]
#[verifier::reject_recursive_types(S)]
pub struct ExDashMap<K, V, S>(DashMap<K, V, S>);

#[verifier::external_type_specification]
#[verifier::external_body]
#[verifier::reject_recursive_types(K)]
#[verifier::reject_recursive_types(S)]
pub struct ExDashSet<K, S>(DashSet<K, S>);

#[verifier::external_type_specification]
#[verifier::external_body]
pub struct ExInstant(Instant);

/// `Instant::clone`: `Instant` is `Copy`, the clone is the same instant.
pub assume_specification[ <Instant as Clone>::clone ](i: &Instant) -> (r: Instant)
    ensures
        r == *i,
;

/// `std::time::Instant::now`: a reading of the monotonic clock.
#[verifier::external_body]
pub(crate) fn instant_now() -> Instant {
    Instant::now()
}

/// `Instant::elapsed`, in whole milliseconds (saturating at `u64::MAX`).
#[verifier::external_body]
pub(crate) fn elapsed_ms(since: &Instant) -> u64 {
    u64::try_from(since.elapsed().as_millis()).unwrap_or(u64::MAX)
}

// ---- DashMap<usize, String>: block id to node id ----

/// What a `DashMap<usize, String>` holds, by the views of its values.
pub uninterp spec fn owner_table(m: DashMap<usize, String>) -> Map<usize, Seq<char>>;

/// `DashMap::new`: an empty map.
#[verifier::external_body]
pub(crate) fn owners_new() -> (r: DashMap<usize, String>)
    ensures
        owner_table(r).dom().is_empty(),
{
    DashMap::new()
}

/// `DashMap::insert`: the key now maps to the value, others are unchanged.
#[verifier::external_body]
pub(crate) fn owners_insert(m: &mut DashMap<usize, String>, k: usize, v: String)
    ensures
        owner_table(*final(m)) == owner_table(*old(m)).insert(k, v@),
{
    m.insert(k, v);
}

/// `DashMap::get`, cloning the value found.
#[verifier::external_body]
pub(crate) fn owners_get(m: &DashMap<usize, String>, k: usize) -> (r: Option<String>)
    ensures
        owner_table(*m).contains_key(k) ==> r is Some && r->0@ == owner_table(*m)[k],
        !owner_table(*m).contains_key(k) ==> r is None,
{
    m.get(&k).map(|e| e.value().clone())
}

/// `DashMap::remove`: the key no longer maps to anything.
#[verifier::external_body]
pub(crate) fn owners_remove(m: &mut DashMap<usize, String>, k: usize)
    ensures
        owner_table(*final(m)) == owner_table(*old(m)).remove(k),
{
    m.remove(&k);
}

/// `DashMap::len`: the number of keys.
#[verifier::external_body]
pub(crate) fn owners_len(m: &DashMap<usize, String>) -> (r: usize)
    ensures
        r == owner_table(*m).dom().len(),
{
    m.len()
}

/// `DashMap::iter`, keeping the keys: each key once, in the map's own order.
#[verifier::external_body]
pub(crate) fn owners_keys(m: &DashMap<usize, String>) -> (r: Vec<usize>)
    ensures
        r@.no_duplicates(),
        r@.to_set() == owner_table(*m).dom(),
{
    m.iter().map(|e| *e.key()).collect()
}

// ---- DashMap<String, Vec<usize>>: node id to its blocks ----

/// What a `DashMap<String, Vec<usize>>` holds, by views.
pub uninterp spec fn node_blocks_table(m: DashMap<String, Vec<usize>>) -> Map<Seq<char>, Seq<usize>>;

/// `DashMap::new`: an empty map.
#[verifier::external_body]
pub(crate) fn node_blocks_new() -> (r: DashMap<String, Vec<usize>>)
    ensures
        node_blocks_table(r).dom().is_empty(),
{
    DashMap::new()
}

/// `DashMap::insert`: the key now maps to the value, others are unchanged.
#[verifier::external_body]
pub(crate) fn node_blocks_insert(m: &mut DashMap<String, Vec<usize>>, k: String, v: Vec<usize>)
    ensures
        node_blocks_table(*final(m)) == node_blocks_table(*old(m)).insert(k@, v@),
{
    m.insert(k, v);
}

/// `DashMap::get`, cloning the value found.
#[verifier::external_body]
pub(crate) fn node_blocks_get(m: &DashMap<String, Vec<usize>>, k: &String) -> (r: Option<Vec<usize>>)
    ensures
        node_blocks_table(*m).contains_key(k@) ==> r is Some && r->0@ == node_blocks_table(*m)[k@],
        !node_blocks_table(*m).contains_key(k@) ==> r is None,
{
    m.get(k).map(|e| e.value().clone())
}

/// `DashMap::iter`, keeping clones of the keys: each key once, in the map's own order.
#[verifier::external_body]
pub(crate) fn node_blocks_keys(m: &DashMap<String, Vec<usize>>) -> (r: Vec<String>)
    ensures
        r@.map_values(|s: String| s@).no_duplicates(),
        r@.map_values(|s: String| s@).to_set() == node_blocks_table(*m).dom(),
{
    m.iter().map(|e| e.key().clone()).collect()
}

// ---- DashMap<usize, Instant>: when a block was assigned ----

/// The keys of a `DashMap<usize, Instant>` (the instants are not read).
pub uninterp spec fn stamp_keys(m: DashMap<usize, Instant>) -> Set<usize>;

/// `DashMap::new`: an empty map.
#[verifier::external_body]
pub(crate) fn stamps_new() -> (r: DashMap<usize, Instant>)
    ensures
        stamp_keys(r).is_empty(),
{
    DashMap::new()
}

/// `DashMap::insert`: the key is now present.
#[verifier::external_body]
pub(crate) fn stamps_insert(m: &mut DashMap<usize, Instant>, k: usize, v: Instant)
    ensures
        stamp_keys(*final(m)) == stamp_keys(*old(m)).insert(k),
{
    m.insert(k, v);
}

/// `DashMap::remove`: the key is no longer present.
#[verifier::external_body]
pub(crate) fn stamps_remove(m: &mut DashMap<usize, Instant>, k: usize)
    ensures
        stamp_keys(*final(m)) == stamp_keys(*old(m)).remove(k),
{
    m.remove(&k);
}

// ---- DashMap<String, Instant>: when a node was seen ----

/// The keys of a `DashMap<String, Instant>`, by view (the instants are not read).
pub uninterp spec fn seen_keys(m: DashMap<String, Instant>) -> Set<Seq<char>>;

/// `DashMap::new`: an empty map.
#[verifier::external_body]
pub(crate) fn seen_new() -> (r: DashMap<String, Instant>)
    ensures
        seen_keys(r).is_empty(),
{
    DashMap::new()
}

/// `DashMap::insert`: the key is now present.
#[verifier::external_body]
pub(crate) fn seen_insert(m: &mut DashMap<String, Instant>, k: String, v: Instant)
    ensures
        seen_keys(*final(m)) == seen_keys(*old(m)).insert(k@),
{
    m.insert(k, v);
}

/// `DashMap::contains_key`.
#[verifier::external_body]
pub(crate) fn seen_contains(m: &DashMap<String, Instant>, k: &String) -> (r: bool)
    ensures
        r == seen_keys(*m).contains(k@),
{
    m.contains_key(k)
}

/// `DashMap::len`: the number of keys.
#[verifier::external_body]
pub(crate) fn seen_len(m: &DashMap<String, Instant>) -> (r: usize)
    ensures
        r == seen_keys(*m).len(),
{
    m.len()
}

/// `DashMap::iter`, keeping clones of the keys: each key once, in the map's own order.
#[verifier::external_body]
pub(crate) fn seen_key_list(m: &DashMap<String, Instant>) -> (r: Vec<String>)
    ensures
        r@.map_values(|s: String| s@).no_duplicates(),
        r@.map_values(|s: String| s@).to_set() == seen_keys(*m),
{
    m.iter().map(|e| e.key().clone()).collect()
}

// ---- DashSet<String>: a set of node ids ----

/// What a `DashSet<String>` holds, by view.
pub uninterp spec fn name_set(m: DashSet<String>) -> Set<Seq<char>>;

/// `DashSet::new`: an empty set.
#[verifier::external_body]
pub(crate) fn names_new() -> (r: DashSet<String>)
    ensures
        name_set(r).is_empty(),
{
    DashSet::new()
}

/// `DashSet::insert`: the key is now present; true when it was not.
#[verifier::external_body]
pub(crate) fn names_insert(m: &mut DashSet<String>, k: String) -> (r: bool)
    ensures
        name_set(*final(m)) == name_set(*old(m)).insert(k@),
        r == !name_set(*old(m)).contains(k@),
{
    m.insert(k)
}

/// `DashSet::remove`: the key is no longer present; true when it was.
#[verifier::external_body]
pub(crate) fn names_remove(m: &mut DashSet<String>, k: &String) -> (r: bool)
    ensures
        name_set(*final(m)) == name_set(*old(m)).remove(k@),
        r == name_set(*old(m)).contains(k@),
{
    m.remove(k).is_some()
}

/// `DashSet::contains`.
#[verifier::external_body]
pub(crate) fn names_contains(m: &DashSet<String>, k: &String) -> (r: bool)
    ensures
        r == name_set(*m).contains(k@),
{
    m.contains(k)
}

/// `DashSet::len`: the number of keys.
#[verifier::external_body]
pub(crate) fn names_len(m: &DashSet<String>) -> (r: usize)
    ensures
        r == name_set(*m).len(),
{
    m.len()
}

/// `DashSet::iter`, keeping clones of the keys: each key once, in the set's own order.
#[verifier::external_body]
pub(crate) fn names_list(m: &DashSet<String>) -> (r: Vec<String>)
    ensures
        r@.map_values(|s: String| s@).no_duplicates(),
        r@.map_values(|s: String| s@).to_set() == name_set(*m),
{
    m.iter().map(|e| e.key().clone()).collect()
}

// ---- DashMap<String, RemoteAllocator>: the clients of the peers ----

/// What a `DashMap<String, RemoteAllocator>` holds, by views.
pub uninterp spec fn remote_table(m: DashMap<String, RemoteAllocator>) -> Map<Seq<char>, RemoteView>;

/// `DashMap::new`: an empty map.
#[verifier::external_body]
pub(crate) fn remotes_new() -> (r: DashMap<String, RemoteAllocator>)
    ensures
        remote_table(r).dom().is_empty(),
{
    DashMap::new()
}

/// `DashMap::insert`: the key now maps to the value, others are unchanged.
#[verifier::external_body]
pub(crate) fn remotes_insert(m: &mut DashMap<String, RemoteAllocator>, k: String, v: RemoteAllocator)
    ensures
        remote_table(*final(m)) == remote_table(*old(m)).insert(k@, v@),
{
    m.insert(k, v);
}

/// `DashMap::remove`: the value of the key, taken out of the map.
#[verifier::external_body]
pub(crate) fn remotes_remove(m: &mut DashMap<String, RemoteAllocator>, k: &String) -> (r: Option<RemoteAllocator>)
    ensures
        remote_table(*old(m)).contains_key(k@) ==> r is Some && r->0@ == remote_table(*old(m))[k@],
        !remote_table(*old(m)).contains_key(k@) ==> r is None,
        remote_table(*final(m)) == remote_table(*old(m)).remove(k@),
{
    m.remove(k).map(|(_, v)| v)
}

/// `DashMap::get`, reading whether the client has a channel open.
#[verifier::external_body]
pub(crate) fn remotes_connected(m: &DashMap<String, RemoteAllocator>, k: &String) -> (r: Option<bool>)
    ensures
        remote_table(*m).contains_key(k@) ==> r == Some(remote_table(*m)[k@].connected),
        !remote_table(*m).contains_key(k@) ==> r is None,
{
    m.get(k).map(|e| e.value().is_connected())
}

} // verus!
