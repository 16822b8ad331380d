use vstd::prelude::*;

verus! {

/// Capacity of a node, in blocks.
#[derive(Debug, Clone, Copy, PartialEq, Eq, Structural)]
pub struct NodeCapacity {
    pub total_blocks: usize,
    pub free_blocks: usize,
    pub allocated_blocks: usize,
}

impl NodeCapacity {
    /// Whether the node has `required_blocks` free blocks.
    pub fn is_available(&self, required_blocks: usize) -> (r: bool)
        ensures
            r == (self.free_blocks >= required_blocks),
    {
        self.free_blocks >= required_blocks
    }
}

/// Why a node could not be selected or found.
#[derive(Debug, Clone, Copy, PartialEq, Eq, Structural)]
pub enum SelectionError {
    /// No node is registered.
    NoNodes,
    /// No node has the required free blocks.
    NoCapacity { required_blocks: usize },
    /// The node is not registered.
    NotRegistered,
}

/// Registered nodes, by id, with their capacities.
pub type NodesView = Seq<(Seq<char>, NodeCapacity)>;

pub open spec fn node_ids(s: NodesView) -> Seq<Seq<char>> {
    s.map_values(|p: (Seq<char>, NodeCapacity)| p.0)
}

/// Position of the entry for `id` (meaningful when there is one).
pub open spec fn node_pos(s: NodesView, id: Seq<char>) -> int {
    choose|i: int| 0 <= i < s.len() && s[i].0 == id
}

/// `id` registered with `cap`: its entry replaced in place, or a new one at the end.
pub open spec fn upsert(s: NodesView, id: Seq<char>, cap: NodeCapacity) -> NodesView {
    if node_ids(s).contains(id) {
        s.update(node_pos(s, id), (id, cap))
    } else {
        s.push((id, cap))
    }
}

/// Whether `id` is registered with at least `required` free blocks.
pub open spec fn available(s: NodesView, required: usize, id: Seq<char>) -> bool {
    node_ids(s).contains(id) && s[node_pos(s, id)].1.free_blocks >= required
}

pub open spec fn avail_pred(s: NodesView, required: usize) -> spec_fn(Seq<char>) -> bool {
    |id: Seq<char>| available(s, required, id)
}

/// The ids of a ranking that are registered and have room, in ranking order.
pub open spec fn ranked_candidates(s: NodesView, required: usize, ranked: Seq<Seq<char>>) -> Seq<Seq<char>> {
    ranked.filter(avail_pred(s, required))
}

/// First position of `x` in `s`, or -1.
pub open spec fn first_pos(s: Seq<Seq<char>>, x: Seq<char>) -> int
    decreases s.len(),
{
    if s.len() == 0 {
        -1
    } else if s[0] == x {
        0
    } else {
        let p = first_pos(s.drop_first(), x);
        if p < 0 { -1 } else { p + 1 }
    }
}

/// Round-robin choice among `top`: the one after the last choice, or the first.
pub open spec fn rr_pick(top: Seq<Seq<char>>, last: Option<Seq<char>>) -> Seq<char> {
    match last {
        Some(l) => {
            let p = first_pos(top, l);
            if p >= 0 { top[(p + 1) % (top.len() as int)] } else { top[0] }
        },
        None => top[0],
    }
}

pub proof fn lemma_first_pos(s: Seq<Seq<char>>, x: Seq<char>, i: int)
    requires
        0 <= i <= s.len(),
        forall|j: int| 0 <= j < i ==> s[j] != x,
    ensures
        i < s.len() && s[i] == x ==> first_pos(s, x) == i,
        i == s.len() ==> first_pos(s, x) == -1,
    decreases s.len(),
{
    if i > 0 {
        lemma_first_pos(s.drop_first(), x, i - 1);
    }
}

pub proof fn lemma_first_pos_bounds(s: Seq<Seq<char>>, x: Seq<char>)
    ensures
        -1 <= first_pos(s, x) < s.len(),
        first_pos(s, x) >= 0 ==> s[first_pos(s, x)] == x,
    decreases s.len(),
{
    if s.len() > 0 && s[0] != x {
        lemma_first_pos_bounds(s.drop_first(), x);
    }
}

/// A node has room for `required` blocks exactly when it is registered and its entry
/// shows at least `required` free blocks; an unregistered node never has room.
pub proof fn lemma_available_iff_free_blocks(s: NodesView, required: usize, id: Seq<char>)
    requires
        node_ids(s).no_duplicates(),
    ensures
        available(s, required, id) <==> exists|i: int|
            0 <= i < s.len() && (#[trigger] s[i]).0 == id && s[i].1.free_blocks >= required,
        available(s, required, id) <==> node_ids(s).contains(id) && forall|i: int|
            0 <= i < s.len() && (#[trigger] s[i]).0 == id ==> s[i].1.free_blocks >= required,
        !node_ids(s).contains(id) ==> !available(s, required, id),
{
    if node_ids(s).contains(id) {
        let k = choose|k: int| 0 <= k < node_ids(s).len() && node_ids(s)[k] == id;
        assert(s[k].0 == id);
        let p = node_pos(s, id);
        assert(0 <= p < s.len() && s[p].0 == id);
        assert forall|i: int| 0 <= i < s.len() && (#[trigger] s[i]).0 == id implies i == p by {
            assert(node_ids(s)[i] == node_ids(s)[p]);
        }
    } else {
        assert forall|i: int| 0 <= i < s.len() implies (#[trigger] s[i]).0 != id by {
            assert(node_ids(s)[i] == s[i].0);
        }
    }
}

/// The candidates drawn from a ranking are exactly its ids that are registered with at
/// least `required` free blocks: each candidate is such an id, and each such id is a
/// candidate.
pub proof fn lemma_ranked_candidates_have_room(s: NodesView, required: usize, ranked: Seq<Seq<char>>)
    requires
        node_ids(s).no_duplicates(),
    ensures
        forall|k: int| 0 <= k < ranked_candidates(s, required, ranked).len() ==> {
            &&& ranked.contains(#[trigger] ranked_candidates(s, required, ranked)[k])
            &&& node_ids(s).contains(ranked_candidates(s, required, ranked)[k])
        },
        forall|k: int, i: int|
            0 <= k < ranked_candidates(s, required, ranked).len() && 0 <= i < s.len()
                && (#[trigger] s[i]).0 == #[trigger] ranked_candidates(s, required, ranked)[k]
                ==> s[i].1.free_blocks >= required,
        forall|k: int, i: int|
            0 <= k < ranked.len() && 0 <= i < s.len() && (#[trigger] s[i]).0 == #[trigger] ranked[k]
                && s[i].1.free_blocks >= required ==> ranked_candidates(s, required, ranked).contains(ranked[k]),
{
    broadcast use Seq::lemma_filter_pred, Seq::lemma_filter_contains, Seq::lemma_filter_contains_rev;
    let c = ranked_candidates(s, required, ranked);
    assert forall|k: int| 0 <= k < c.len() implies {
        &&& ranked.contains(#[trigger] c[k])
        &&& node_ids(s).contains(c[k])
    } by {
        assert(avail_pred(s, required)(c[k]));
        lemma_available_iff_free_blocks(s, required, c[k]);
        assert(c.contains(c[k]));
    }
    assert forall|k: int, i: int|
        0 <= k < c.len() && 0 <= i < s.len() && (#[trigger] s[i]).0 == #[trigger] c[k]
            implies s[i].1.free_blocks >= required by {
        assert(avail_pred(s, required)(c[k]));
        lemma_available_iff_free_blocks(s, required, c[k]);
    }
    assert forall|k: int, i: int|
        0 <= k < ranked.len() && 0 <= i < s.len() && (#[trigger] s[i]).0 == #[trigger] ranked[k]
            && s[i].1.free_blocks >= required implies c.contains(ranked[k]) by {
        lemma_available_iff_free_blocks(s, required, ranked[k]);
        assert(avail_pred(s, required)(ranked[k]));
    }
}

/// The `k`-th candidate drawn from `ranked` is one of its ids, registered, and every
/// entry for it has at least `required` free blocks.
proof fn lemma_candidate_has_room(s: NodesView, required: usize, ranked: Seq<String>, k: int)
    requires
        node_ids(s).no_duplicates(),
        0 <= k < ranked_candidates(s, required, ranked.map_values(|x: String| x@)).len(),
    ensures
        ({
            let id = ranked_candidates(s, required, ranked.map_values(|x: String| x@))[k];
            &&& ranked.map_values(|x: String| x@).contains(id)
            &&& node_ids(s).contains(id)
            &&& forall|i: int| 0 <= i < s.len() && (#[trigger] s[i]).0 == id ==> s[i].1.free_blocks >= required
        }),
{
    lemma_ranked_candidates_have_room(s, required, ranked.map_values(|x: String| x@));
}

/// Some candidate is drawn from `ranked` as soon as one of its ids is registered with
/// at least `required` free blocks.
proof fn lemma_room_gives_candidate(s: NodesView, required: usize, ranked: Seq<String>)
    requires
        node_ids(s).no_duplicates(),
    ensures
        forall|k: int, i: int|
            0 <= k < ranked.len() && 0 <= i < s.len() && (#[trigger] s[i]).0 == (#[trigger] ranked[k])@
                && s[i].1.free_blocks >= required
                ==> ranked_candidates(s, required, ranked.map_values(|x: String| x@)).len() > 0,
{
    let rk = ranked.map_values(|x: String| x@);
    lemma_ranked_candidates_have_room(s, required, rk);
    assert forall|k: int, i: int|
        0 <= k < ranked.len() && 0 <= i < s.len() && (#[trigger] s[i]).0 == (#[trigger] ranked[k])@
            && s[i].1.free_blocks >= required implies ranked_candidates(s, required, rk).len() > 0 by {
        assert(rk[k] == ranked[k]@);
        assert(ranked_candidates(s, required, rk).contains(rk[k]));
    }
}

/// Abstract selector.
pub struct SelectorView {
    pub nodes: NodesView,
    pub last_selection: Option<Seq<char>>,
}

/// Picks nodes for allocation by capacity. The scoring of nodes by latency and load
/// is done by the caller, which hands in its ranking (best first).
pub struct NodeSelector {
    nodes: Vec<(String, NodeCapacity)>,
    last_selection: Option<String>,
}

pub open spec fn entry_views(s: Seq<(String, NodeCapacity)>) -> NodesView {
    s.map_values(|p: (String, NodeCapacity)| (p.0@, p.1))
}

impl View for NodeSelector {
    type V = SelectorView;

    closed spec fn view(&self) -> SelectorView {
        SelectorView {
            nodes: entry_views(self.nodes@),
            last_selection: match self.last_selection {
                Some(s) => Some(s@),
                None => None,
            },
        }
    }
}

/// Each node is registered once.
pub open spec fn selector_wf(v: SelectorView) -> bool {
    node_ids(v.nodes).no_duplicates()
}

impl NodeSelector {
    /// No node registered, nothing selected yet.
    pub fn new() -> (r: Self)
        ensures
            r@.nodes.len() == 0,
            r@.last_selection is None,
            selector_wf(r@),
    {
        NodeSelector { nodes: Vec::new(), last_selection: None }
    }

    fn find(&self, node_id: &str) -> (r: Option<usize>)
        requires
            selector_wf(self@),
        ensures
            match r {
                Some(i) => i < self@.nodes.len() && self@.nodes[i as int].0 == node_id@
                    && node_pos(self@.nodes, node_id@) == i && node_ids(self@.nodes).contains(node_id@),
                None => !node_ids(self@.nodes).contains(node_id@),
            },
    {
        let key: String = node_id.to_owned();
        let mut i: usize = 0;
        while i < self.nodes.len()
            invariant
                i <= self.nodes.len(),
                key@ == node_id@,
                selector_wf(self@),
                forall|j: int| 0 <= j < i ==> self@.nodes[j].0 != node_id@,
            decreases self.nodes.len() - i,
        {
            if self.nodes[i].0 == key {
                let ghost s = self@.nodes;
                assert(node_ids(s)[i as int] == node_id@);
                assert(node_ids(s).contains(node_id@));
                assert(s[i as int].0 == node_id@);
                let ghost p = node_pos(s, node_id@);
                assert(0 <= p < s.len() && s[p].0 == node_id@);
                assert(node_ids(s)[p] == node_ids(s)[i as int]);
                return Some(i);
            }
            i = i + 1;
        }
        assert forall|j: int| 0 <= j < node_ids(self@.nodes).len() implies node_ids(self@.nodes)[j] != node_id@ by {
            assert(node_ids(self@.nodes)[j] == self@.nodes[j].0);
        }
        None
    }

    /// Register a node, or replace the capacity of a registered one.
    pub fn register_node(&mut self, node_id: String, capacity: NodeCapacity) -> (r: Result<(), SelectionError>)
        requires
            selector_wf(old(self)@),
        ensures
            selector_wf(final(self)@),
            r is Ok,
            final(self)@ == (SelectorView { nodes: upsert(old(self)@.nodes, node_id@, capacity), ..old(self)@ }),
    {
        let ghost s0 = self@.nodes;
        match self.find(node_id.as_str()) {
            Some(i) => {
                self.nodes.set(i, (node_id, capacity));
                assert(self@.nodes =~= s0.update(i as int, (node_id@, capacity)));
                assert(node_ids(self@.nodes) =~= node_ids(s0));
            },
            None => {
                self.nodes.push((node_id, capacity));
                assert(self@.nodes =~= s0.push((node_id@, capacity)));
                assert(node_ids(self@.nodes) =~= node_ids(s0).push(node_id@));
            },
        }
        Ok(())
    }

    /// Replace the capacity of a registered node; an unknown node is refused.
    pub fn update_capacity(&mut self, node_id: &str, capacity: NodeCapacity) -> (r: Result<(), SelectionError>)
        requires
            selector_wf(old(self)@),
        ensures
            selector_wf(final(self)@),
            !node_ids(old(self)@.nodes).contains(node_id@) ==> r == Err::<(), SelectionError>(SelectionError::NotRegistered)
                && final(self)@ == old(self)@,
            node_ids(old(self)@.nodes).contains(node_id@) ==> r is Ok
                && final(self)@ == (SelectorView { nodes: upsert(old(self)@.nodes, node_id@, capacity), ..old(self)@ }),
    {
        let ghost s0 = self@.nodes;
        match self.find(node_id) {
            Some(i) => {
                self.nodes.set(i, (node_id.to_owned(), capacity));
                assert(self@.nodes =~= s0.update(i as int, (node_id@, capacity)));
                assert(node_ids(self@.nodes) =~= node_ids(s0));
                Ok(())
            },
            None => Err(SelectionError::NotRegistered),
        }
    }

    /// Ids of the registered nodes.
    pub fn get_nodes(&self) -> (r: Vec<String>)
        ensures
            r@.map_values(|s: String| s@) == node_ids(self@.nodes),
    {
        let mut out: Vec<String> = Vec::new();
        let mut i: usize = 0;
        while i < self.nodes.len()
            invariant
                i <= self.nodes.len(),
                out@.len() == i,
                out@.map_values(|s: String| s@) == node_ids(self@.nodes).take(i as int),
            decreases self.nodes.len() - i,
        {
            let ghost before = out@;
            out.push(self.nodes[i].0.clone());
            assert(node_ids(self@.nodes)[i as int] == self@.nodes[i as int].0);
            assert(out@ == before.push(out@[i as int]));
            assert(out@.map_values(|s: String| s@) =~= node_ids(self@.nodes).take(i as int + 1));
            i = i + 1;
        }
        assert(node_ids(self@.nodes).take(i as int) =~= node_ids(self@.nodes));
        out
    }

    /// Capacity of a registered node; an unknown node is refused.
    pub fn get_capacity(&self, node_id: &str) -> (r: Result<NodeCapacity, SelectionError>)
        requires
            selector_wf(self@),
        ensures
            node_ids(self@.nodes).contains(node_id@)
                ==> r == Ok::<NodeCapacity, SelectionError>(self@.nodes[node_pos(self@.nodes, node_id@)].1),
            !node_ids(self@.nodes).contains(node_id@) ==> r == Err::<NodeCapacity, SelectionError>(SelectionError::NotRegistered),
    {
        match self.find(node_id) {
            Some(i) => Ok(self.nodes[i].1),
            None => Err(SelectionError::NotRegistered),
        }
    }

    /// Forget a node (nothing happens for an unknown one).
    pub fn remove_node(&mut self, node_id: &str) -> (r: Result<(), SelectionError>)
        requires
            selector_wf(old(self)@),
        ensures
            selector_wf(final(self)@),
            r is Ok,
            !node_ids(old(self)@.nodes).contains(node_id@) ==> final(self)@ == old(self)@,
            node_ids(old(self)@.nodes).contains(node_id@) ==> final(self)@ == (SelectorView {
                nodes: old(self)@.nodes.remove(node_pos(old(self)@.nodes, node_id@)),
                ..old(self)@
            }),
    {
        let ghost s0 = self@.nodes;
        match self.find(node_id) {
            Some(i) => {
                self.nodes.remove(i);
                assert(self@.nodes =~= s0.remove(i as int));
                assert(node_ids(self@.nodes) =~= node_ids(s0).remove(i as int));
                proof {
                    let t = node_ids(s0);
                    let u = t.remove(i as int);
                    assert forall|a: int, b: int| 0 <= a < u.len() && 0 <= b < u.len() && a != b implies u[a] != u[b] by {
                        let a2 = if a < i { a } else { a + 1 };
                        let b2 = if b < i { b } else { b + 1 };
                        assert(u[a] == t[a2] && u[b] == t[b2]);
                    }
                }
            },
            None => {},
        }
        Ok(())
    }

    /// Whether `node_id` is registered with room for `required_blocks`.
    fn has_room(&self, node_id: &str, required_blocks: usize) -> (r: bool)
        requires
            selector_wf(self@),
        ensures
            r == available(self@.nodes, required_blocks, node_id@),
            r == exists|i: int|
                0 <= i < self@.nodes.len() && (#[trigger] self@.nodes[i]).0 == node_id@
                    && self@.nodes[i].1.free_blocks >= required_blocks,
    {
        proof {
            lemma_available_iff_free_blocks(self@.nodes, required_blocks, node_id@);
        }
        match self.find(node_id) {
            Some(i) => self.nodes[i].1.is_available(required_blocks),
            None => false,
        }
    }

    /// Ids of the nodes with room for `required_blocks`, in registration order.
    pub fn get_available_nodes(&self, required_blocks: usize) -> (r: Vec<String>)
        requires
            selector_wf(self@),
        ensures
            r@.map_values(|s: String| s@) == node_ids(self@.nodes).filter(avail_pred(self@.nodes, required_blocks)),
            forall|k: int| 0 <= k < r.len() ==> node_ids(self@.nodes).contains((#[trigger] r@[k])@),
            forall|k: int, i: int|
                0 <= k < r.len() && 0 <= i < self@.nodes.len() && (#[trigger] self@.nodes[i]).0 == (#[trigger] r@[k])@
                    ==> self@.nodes[i].1.free_blocks >= required_blocks,
            forall|i: int| 0 <= i < self@.nodes.len() && (#[trigger] self@.nodes[i]).1.free_blocks >= required_blocks
                ==> r@.map_values(|s: String| s@).contains(self@.nodes[i].0),
    {
        let ghost ids = node_ids(self@.nodes);
        let ghost pred = avail_pred(self@.nodes, required_blocks);
        let mut out: Vec<String> = Vec::new();
        let mut i: usize = 0;
        while i < self.nodes.len()
            invariant
                i <= self.nodes.len(),
                selector_wf(self@),
                ids == node_ids(self@.nodes),
                pred == avail_pred(self@.nodes, required_blocks),
                out@.map_values(|s: String| s@) == ids.take(i as int).filter(pred),
            decreases self.nodes.len() - i,
        {
            assert(ids.take(i as int + 1) == ids.take(i as int).push(ids[i as int]));
            proof {
                ids.take(i as int).lemma_filter_push(ids[i as int], pred);
            }
            let room = self.has_room(self.nodes[i].0.as_str(), required_blocks);
            if room {
                out.push(self.nodes[i].0.clone());
                assert(out@.map_values(|s: String| s@) =~= ids.take(i as int).filter(pred).push(ids[i as int]));
            }
            i = i + 1;
        }
        assert(ids.take(i as int) =~= ids);
        proof {
            lemma_ranked_candidates_have_room(self@.nodes, required_blocks, ids);
            let v = out@.map_values(|s: String| s@);
            assert forall|k: int| 0 <= k < out.len() implies node_ids(self@.nodes).contains((#[trigger] out@[k])@) by {
                assert(v[k] == out@[k]@);
                assert(ranked_candidates(self@.nodes, required_blocks, ids)[k] == v[k]);
            }
            assert forall|k: int, j: int|
                0 <= k < out.len() && 0 <= j < self@.nodes.len() && (#[trigger] self@.nodes[j]).0 == (#[trigger] out@[k])@
                    implies self@.nodes[j].1.free_blocks >= required_blocks by {
                assert(v[k] == out@[k]@);
                assert(ranked_candidates(self@.nodes, required_blocks, ids)[k] == v[k]);
            }
            assert forall|j: int| 0 <= j < self@.nodes.len() && (#[trigger] self@.nodes[j]).1.free_blocks >= required_blocks
                implies v.contains(self@.nodes[j].0) by {
                assert(ids[j] == self@.nodes[j].0);
            }
        }
        out
    }

    /// The ids of `ranked` that are registered and have room, in ranking order.
    fn candidates_in(&self, required_blocks: usize, ranked: &Vec<String>) -> (r: Vec<String>)
        requires
            selector_wf(self@),
        ensures
            r@.map_values(|s: String| s@) == ranked_candidates(
                self@.nodes,
                required_blocks,
                ranked@.map_values(|s: String| s@),
            ),
    {
        let ghost rk = ranked@.map_values(|s: String| s@);
        let ghost pred = avail_pred(self@.nodes, required_blocks);
        let mut out: Vec<String> = Vec::new();
        let mut i: usize = 0;
        while i < ranked.len()
            invariant
                i <= ranked.len(),
                selector_wf(self@),
                rk == ranked@.map_values(|s: String| s@),
                pred == avail_pred(self@.nodes, required_blocks),
                out@.map_values(|s: String| s@) == rk.take(i as int).filter(pred),
            decreases ranked.len() - i,
        {
            assert(rk.take(i as int + 1) == rk.take(i as int).push(rk[i as int]));
            proof {
                rk.take(i as int).lemma_filter_push(rk[i as int], pred);
            }
            let room = self.has_room(ranked[i].as_str(), required_blocks);
            if room {
                out.push(ranked[i].clone());
                assert(out@.map_values(|s: String| s@) =~= rk.take(i as int).filter(pred).push(rk[i as int]));
            }
            i = i + 1;
        }
        assert(rk.take(i as int) =~= rk);
        out
    }

    /// The best node with room: the first such node of `ranked` (the caller's
    /// ranking by score, best first). Refused when no node is registered, or when
    /// none has room.
    pub fn select_node(&self, required_blocks: usize, ranked: &Vec<String>) -> (r: Result<String, SelectionError>)
        requires
            selector_wf(self@),
        ensures
            self@.nodes.len() == 0 ==> r == Err::<String, SelectionError>(SelectionError::NoNodes),
            ({
                let c = ranked_candidates(self@.nodes, required_blocks, ranked@.map_values(|s: String| s@));
                &&& self@.nodes.len() > 0 && c.len() == 0 ==> r == Err::<String, SelectionError>(
                    SelectionError::NoCapacity { required_blocks },
                )
                &&& self@.nodes.len() > 0 && c.len() > 0 ==> r is Ok && r->Ok_0@ == c[0]
            }),
            ({
                let x = r->Ok_0@;
                r is Ok ==> {
                    &&& ranked@.map_values(|s: String| s@).contains(x)
                    &&& node_ids(self@.nodes).contains(x)
                    &&& forall|i: int| 0 <= i < self@.nodes.len() && (#[trigger] self@.nodes[i]).0 == x
                        ==> self@.nodes[i].1.free_blocks >= required_blocks
                }
            }),
            forall|k: int, i: int|
                0 <= k < ranked.len() && 0 <= i < self@.nodes.len() && (#[trigger] self@.nodes[i]).0 == (#[trigger] ranked@[k])@
                    && self@.nodes[i].1.free_blocks >= required_blocks ==> r is Ok,
    {
        proof {
            lemma_room_gives_candidate(self@.nodes, required_blocks, ranked@);
        }
        if self.nodes.len() == 0 {
            return Err(SelectionError::NoNodes);
        }
        let c = self.candidates_in(required_blocks, ranked);
        if c.len() == 0 {
            return Err(SelectionError::NoCapacity { required_blocks });
        }
        let first = c[0].clone();
        assert(c@.map_values(|s: String| s@)[0] == c@[0]@);
        proof {
            lemma_candidate_has_room(self@.nodes, required_blocks, ranked@, 0);
        }
        Ok(first)
    }

    /// Round robin among the three best nodes with room (in the caller's ranking):
    /// the one after the last selection when that is among them, else the best.
    /// The choice is remembered.
    pub fn select_node_round_robin(&mut self, required_blocks: usize, ranked: &Vec<String>) -> (r: Result<String, SelectionError>)
        requires
            selector_wf(old(self)@),
        ensures
            selector_wf(final(self)@),
            final(self)@.nodes == old(self)@.nodes,
            old(self)@.nodes.len() == 0 ==> r == Err::<String, SelectionError>(SelectionError::NoNodes)
                && final(self)@ == old(self)@,
            ({
                let c = ranked_candidates(old(self)@.nodes, required_blocks, ranked@.map_values(|s: String| s@));
                &&& old(self)@.nodes.len() > 0 && c.len() == 0 ==> r == Err::<String, SelectionError>(
                    SelectionError::NoCapacity { required_blocks },
                ) && final(self)@ == old(self)@
                &&& old(self)@.nodes.len() > 0 && c.len() > 0 ==> r is Ok
                    && r->Ok_0@ == rr_pick(c.take(if c.len() < 3 { c.len() as int } else { 3 }), old(self)@.last_selection)
                    && final(self)@.last_selection == Some(r->Ok_0@)
            }),
            ({
                let x = r->Ok_0@;
                r is Ok ==> {
                    &&& ranked@.map_values(|s: String| s@).contains(x)
                    &&& node_ids(old(self)@.nodes).contains(x)
                    &&& forall|i: int| 0 <= i < old(self)@.nodes.len() && (#[trigger] old(self)@.nodes[i]).0 == x
                        ==> old(self)@.nodes[i].1.free_blocks >= required_blocks
                }
            }),
            forall|k: int, i: int|
                0 <= k < ranked.len() && 0 <= i < old(self)@.nodes.len() && (#[trigger] old(self)@.nodes[i]).0 == (#[trigger] ranked@[k])@
                    && old(self)@.nodes[i].1.free_blocks >= required_blocks ==> r is Ok,
    {
        proof {
            lemma_room_gives_candidate(self@.nodes, required_blocks, ranked@);
        }
        if self.nodes.len() == 0 {
            return Err(SelectionError::NoNodes);
        }
        let c = self.candidates_in(required_blocks, ranked);
        if c.len() == 0 {
            return Err(SelectionError::NoCapacity { required_blocks });
        }
        let ghost cv = c@.map_values(|s: String| s@);
        let n: usize = if c.len() < 3 { c.len() } else { 3 };
        let ghost top = cv.take(n as int);
        let mut pick: usize = 0;
        match &self.last_selection {
            Some(last) => {
                let mut i: usize = 0;
                let mut found = false;
                while i < n && !found
                    invariant
                        i <= n <= c.len(),
                        n > 0,
                        top == cv.take(n as int),
                        cv == c@.map_values(|s: String| s@),
                        forall|j: int| 0 <= j < i ==> top[j] != last@,
                        !found ==> pick == 0,
                        found ==> i < n && top[i as int] == last@ && pick as int == (i as int + 1) % (n as int),
                    decreases n - i + (if found { 0int } else { 1int }),
                {
                    assert(top[i as int] == c@[i as int]@);
                    if c[i] == *last {
                        found = true;
                        pick = (i + 1) % n;
                    } else {
                        i = i + 1;
                    }
                }
                proof {
                    lemma_first_pos(top, last@, i as int);
                }
            },
            None => {},
        }
        let chosen = c[pick].clone();
        assert(top[pick as int] == c@[pick as int]@);
        proof {
            lemma_candidate_has_room(self@.nodes, required_blocks, ranked@, pick as int);
        }
        self.last_selection = Some(chosen.clone());
        Ok(chosen)
    }

    /// The best node with room for `required_blocks` in the caller's ranking,
    /// without remembering it; refused when there is none.
    pub fn best_node(&self, required_blocks: usize, ranked: &Vec<String>) -> (r: Result<String, SelectionError>)
        requires
            selector_wf(self@),
        ensures
            ({
                let c = ranked_candidates(self@.nodes, required_blocks, ranked@.map_values(|s: String| s@));
                &&& c.len() == 0 ==> r == Err::<String, SelectionError>(SelectionError::NoCapacity { required_blocks })
                &&& c.len() > 0 ==> r is Ok && r->Ok_0@ == c[0]
            }),
            ({
                let x = r->Ok_0@;
                r is Ok ==> {
                    &&& ranked@.map_values(|s: String| s@).contains(x)
                    &&& node_ids(self@.nodes).contains(x)
                    &&& forall|i: int| 0 <= i < self@.nodes.len() && (#[trigger] self@.nodes[i]).0 == x
                        ==> self@.nodes[i].1.free_blocks >= required_blocks
                }
            }),
            forall|k: int, i: int|
                0 <= k < ranked.len() && 0 <= i < self@.nodes.len() && (#[trigger] self@.nodes[i]).0 == (#[trigger] ranked@[k])@
                    && self@.nodes[i].1.free_blocks >= required_blocks ==> r is Ok,
    {
        proof {
            lemma_room_gives_candidate(self@.nodes, required_blocks, ranked@);
        }
        let c = self.candidates_in(required_blocks, ranked);
        if c.len() == 0 {
            return Err(SelectionError::NoCapacity { required_blocks });
        }
        let first = c[0].clone();
        assert(c@.map_values(|s: String| s@)[0] == c@[0]@);
        proof {
            lemma_candidate_has_room(self@.nodes, required_blocks, ranked@, 0);
        }
        Ok(first)
    }

    /// The node chosen last by round robin.
    pub fn last_selection(&self) -> (r: Option<String>)
        ensures
            match r {
                Some(s) => self@.last_selection == Some(s@),
                None => self@.last_selection is None,
            },
    {
        match &self.last_selection {
            Some(s) => Some(s.clone()),
            None => None,
        }
    }
}

} // verus!
