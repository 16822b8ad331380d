use vstd::prelude::*;
use dashmap::{DashMap, DashSet};
use std::time::Instant;
use crate::concurrent_maps::{
    instant_now, name_set, names_contains, names_insert, names_len, names_list, names_new, names_remove, seen_contains,
    seen_insert, seen_key_list, seen_keys, seen_len, seen_new,
};

verus! {

/// Abstract failure detector.
pub struct DetectorView {
    /// Nodes currently considered dead.
    pub dead: Set<Seq<char>>,
    /// Nodes that sent a heartbeat.
    pub seen: Set<Seq<char>>,
    /// Nodes that came back after being marked dead.
    pub recovered: Set<Seq<char>>,
}

/// Detects dead nodes and tracks their recovery.
pub struct FailureDetector {
    dead_nodes: DashSet<String>,
    last_heartbeat: DashMap<String, Instant>,
    recovered_nodes: DashMap<String, Instant>,
}

impl View for FailureDetector {
    type V = DetectorView;

    closed spec fn view(&self) -> DetectorView {
        DetectorView {
            dead: name_set(self.dead_nodes),
            seen: seen_keys(self.last_heartbeat),
            recovered: seen_keys(self.recovered_nodes),
        }
    }
}

/// Why a detector operation failed (none do).
#[derive(Debug, Clone, Copy, PartialEq, Eq, Structural)]
pub enum DetectorError {
    Unreachable,
}

impl FailureDetector {
    /// No node seen, dead or recovered.
    pub fn new() -> (r: Self)
        ensures
            r@.dead.is_empty(),
            r@.seen.is_empty(),
            r@.recovered.is_empty(),
    {
        FailureDetector { dead_nodes: names_new(), last_heartbeat: seen_new(), recovered_nodes: seen_new() }
    }

    /// A heartbeat from `node_id`: it is seen and no longer dead; if it was dead it
    /// counts as recovered.
    pub fn heartbeat(&mut self, node_id: &str) -> (r: Result<(), DetectorError>)
        ensures
            r is Ok,
            final(self)@ == (DetectorView {
                dead: old(self)@.dead.remove(node_id@),
                seen: old(self)@.seen.insert(node_id@),
                recovered: if old(self)@.dead.contains(node_id@) {
                    old(self)@.recovered.insert(node_id@)
                } else {
                    old(self)@.recovered
                },
            }),
    {
        let n: String = node_id.to_owned();
        seen_insert(&mut self.last_heartbeat, n.clone(), instant_now());
        if names_remove(&mut self.dead_nodes, &n) {
            seen_insert(&mut self.recovered_nodes, n, instant_now());
        }
        Ok(())
    }

    /// Mark `node_id` dead.
    pub fn mark_dead(&mut self, node_id: &str) -> (r: Result<(), DetectorError>)
        ensures
            r is Ok,
            final(self)@ == (DetectorView { dead: old(self)@.dead.insert(node_id@), ..old(self)@ }),
    {
        let n: String = node_id.to_owned();
        names_insert(&mut self.dead_nodes, n);
        Ok(())
    }

    /// Whether `node_id` is considered dead.
    pub fn is_dead(&self, node_id: &str) -> (r: bool)
        ensures
            r == self@.dead.contains(node_id@),
    {
        let n: String = node_id.to_owned();
        names_contains(&self.dead_nodes, &n)
    }

    /// The dead nodes, each once.
    pub fn get_dead_nodes(&self) -> (r: Vec<String>)
        ensures
            r@.map_values(|s: String| s@).no_duplicates(),
            r@.map_values(|s: String| s@).to_set() == self@.dead,
    {
        names_list(&self.dead_nodes)
    }

    /// The nodes seen and not dead, each once.
    pub fn get_alive_nodes(&self) -> (r: Vec<String>)
        ensures
            r@.map_values(|s: String| s@).no_duplicates(),
            r@.map_values(|s: String| s@).to_set() == self@.seen.difference(self@.dead),
    {
        let all = seen_key_list(&self.last_heartbeat);
        let ghost all_v = all@.map_values(|s: String| s@);
        let ghost dead = self@.dead;
        let mut out: Vec<String> = Vec::new();
        let mut i: usize = 0;
        while i < all.len()
            invariant
                i <= all.len(),
                all_v == all@.map_values(|s: String| s@),
                all_v.no_duplicates(),
                dead == self@.dead,
                out@.map_values(|s: String| s@).no_duplicates(),
                out@.map_values(|s: String| s@).to_set() == all_v.take(i as int).to_set().difference(dead),
            decreases all.len() - i,
        {
            let ghost before = out@.map_values(|s: String| s@);
            let ghost x = all_v[i as int];
            assert(all_v.take(i as int + 1) == all_v.take(i as int).push(x));
            proof {
                all_v.take(i as int).lemma_push_to_set_commute(x);
                assert(!all_v.take(i as int).contains(x)) by {
                    if all_v.take(i as int).contains(x) {
                        let k = all_v.take(i as int).index_of(x);
                        assert(all_v[k] == all_v[i as int]);
                    }
                }
            }
            if !names_contains(&self.dead_nodes, &all[i]) {
                out.push(all[i].clone());
                assert(out@.map_values(|s: String| s@) =~= before.push(x));
                proof {
                    before.lemma_push_to_set_commute(x);
                    assert(!before.contains(x)) by {
                        if before.contains(x) {
                            assert(before.to_set().contains(x));
                        }
                    }
                }
                assert(out@.map_values(|s: String| s@).to_set() =~= all_v.take(i as int + 1).to_set().difference(dead));
            } else {
                assert(before.to_set() =~= all_v.take(i as int + 1).to_set().difference(dead));
            }
            i = i + 1;
        }
        assert(all_v.take(all.len() as int) == all_v);
        out
    }

    /// Whether `node_id` came back after being marked dead.
    pub fn was_recovered(&self, node_id: &str) -> (r: bool)
        ensures
            r == self@.recovered.contains(node_id@),
    {
        let n: String = node_id.to_owned();
        seen_contains(&self.recovered_nodes, &n)
    }

    /// Failures seen: recovered nodes plus nodes dead now.
    pub fn failure_count(&self) -> (r: usize)
        ensures
            r == (self@.recovered.len() as usize).wrapping_add(self@.dead.len() as usize),
    {
        seen_len(&self.recovered_nodes).wrapping_add(names_len(&self.dead_nodes))
    }

    /// Number of nodes that sent a heartbeat.
    pub fn total_nodes(&self) -> (r: usize)
        ensures
            r == self@.seen.len(),
    {
        seen_len(&self.last_heartbeat)
    }
}

} // verus!
