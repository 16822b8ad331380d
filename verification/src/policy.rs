use vstd::prelude::*;

verus! {

/// Strategy used to pick the block to evict.
#[derive(Debug, Clone, Copy, PartialEq, Eq)]
pub enum EvictionPolicy {
    /// Least recently used: smallest last-access timestamp.
    LRU,
    /// Least frequently used: smallest access count.
    LFU,
    /// First in, first out: the first candidate.
    FIFO,
}

/// The ordering key that a policy minimises, for a candidate
/// `(block_id, last_accessed, access_count)`.
pub open spec fn policy_key(policy: EvictionPolicy, c: (usize, usize, usize)) -> usize {
    match policy {
        EvictionPolicy::LRU => c.1,
        EvictionPolicy::LFU => c.2,
        EvictionPolicy::FIFO => 0,
    }
}

/// `i` is the first position of a candidate with the least key.
pub open spec fn is_first_min(
    policy: EvictionPolicy,
    s: Seq<(usize, usize, usize)>,
    i: int,
) -> bool {
    &&& 0 <= i < s.len()
    &&& forall|j: int| 0 <= j < s.len() ==> policy_key(policy, s[i]) <= policy_key(policy, #[trigger] s[j])
    &&& forall|j: int| 0 <= j < i ==> policy_key(policy, #[trigger] s[j]) > policy_key(policy, s[i])
}

/// The victim a policy picks: the block of the first candidate whose key is least
/// (for FIFO every key is equal, so this is the first candidate); none when there
/// are no candidates.
pub open spec fn victim_spec(policy: EvictionPolicy, s: Seq<(usize, usize, usize)>) -> Option<usize> {
    if s.len() == 0 {
        None
    } else {
        Some(s[choose|i: int| is_first_min(policy, s, i)].0)
    }
}

/// The first least candidate is unique.
pub proof fn lemma_first_min_unique(policy: EvictionPolicy, s: Seq<(usize, usize, usize)>, i: int, k: int)
    requires
        is_first_min(policy, s, i),
        is_first_min(policy, s, k),
    ensures
        i == k,
{
    if i < k {
        assert(policy_key(policy, s[i]) > policy_key(policy, s[k]));
    } else if k < i {
        assert(policy_key(policy, s[k]) > policy_key(policy, s[i]));
    }
}

/// The candidate at `i` is one that `policy` may evict, stated over the tuple fields:
/// under LRU its `last_accessed` (field 1) is the least of all candidates, under LFU its
/// `access_count` (field 2) is the least, and under FIFO it is the first candidate.
/// Under LRU and LFU no earlier candidate ties with it.
pub open spec fn evicts_at(policy: EvictionPolicy, s: Seq<(usize, usize, usize)>, i: int) -> bool {
    &&& 0 <= i < s.len()
    &&& policy == EvictionPolicy::LRU ==> {
        &&& forall|j: int| 0 <= j < s.len() ==> s[i].1 <= #[trigger] s[j].1
        &&& forall|j: int| 0 <= j < i ==> #[trigger] s[j].1 > s[i].1
    }
    &&& policy == EvictionPolicy::LFU ==> {
        &&& forall|j: int| 0 <= j < s.len() ==> s[i].2 <= #[trigger] s[j].2
        &&& forall|j: int| 0 <= j < i ==> #[trigger] s[j].2 > s[i].2
    }
    &&& policy == EvictionPolicy::FIFO ==> i == 0
}

/// LRU orders candidates by their last-access timestamp, LFU by their access count,
/// and FIFO gives every candidate the same key.
pub proof fn lemma_policy_keys(c: (usize, usize, usize))
    ensures
        policy_key(EvictionPolicy::LRU, c) == c.1,
        policy_key(EvictionPolicy::LFU, c) == c.2,
        policy_key(EvictionPolicy::FIFO, c) == 0,
{
}

/// The first least position is exactly the position a policy evicts at.
proof fn lemma_first_min_evicts(policy: EvictionPolicy, s: Seq<(usize, usize, usize)>, i: int)
    requires
        is_first_min(policy, s, i),
    ensures
        evicts_at(policy, s, i),
{
    if policy == EvictionPolicy::FIFO && i > 0 {
        assert(policy_key(policy, s[0]) > policy_key(policy, s[i]));
    }
    assert forall|j: int| 0 <= j < s.len() implies policy_key(policy, s[i]) <= policy_key(policy, #[trigger] s[j]) by {}
}

/// Every non-empty candidate list has a first least position.
proof fn lemma_first_min_exists(policy: EvictionPolicy, s: Seq<(usize, usize, usize)>)
    requires
        s.len() > 0,
    ensures
        exists|i: int| is_first_min(policy, s, i),
    decreases s.len(),
{
    if s.len() == 1 {
        assert(is_first_min(policy, s, 0));
    } else {
        let t = s.drop_last();
        lemma_first_min_exists(policy, t);
        let i = choose|i: int| is_first_min(policy, t, i);
        let last = s.len() - 1;
        assert forall|j: int| 0 <= j < t.len() implies #[trigger] s[j] == t[j] by {}
        if policy_key(policy, s[last]) < policy_key(policy, s[i]) {
            assert forall|j: int| 0 <= j < last implies policy_key(policy, #[trigger] s[j]) > policy_key(policy, s[last]) by {
                assert(s[j] == t[j]);
            }
            assert(is_first_min(policy, s, last));
        } else {
            assert forall|j: int| 0 <= j < s.len() implies policy_key(policy, s[i]) <= policy_key(policy, #[trigger] s[j]) by {
                if j < last {
                    assert(s[j] == t[j]);
                }
            }
            assert forall|j: int| 0 <= j < i implies policy_key(policy, #[trigger] s[j]) > policy_key(policy, s[i]) by {
                assert(s[j] == t[j]);
            }
            assert(is_first_min(policy, s, i));
        }
    }
}

/// What a policy evicts: nothing exactly when there are no candidates; otherwise the
/// block of a candidate whose last-access timestamp (LRU) or access count (LFU) is no
/// greater than that of any candidate, the first such one, or the first candidate (FIFO).
pub proof fn lemma_victim_is_least(policy: EvictionPolicy, s: Seq<(usize, usize, usize)>)
    ensures
        victim_spec(policy, s) is None <==> s.len() == 0,
        victim_spec(policy, s) is Some ==> exists|i: int|
            evicts_at(policy, s, i) && #[trigger] s[i].0 == victim_spec(policy, s)->0,
{
    if s.len() > 0 {
        lemma_first_min_exists(policy, s);
        let i = choose|i: int| is_first_min(policy, s, i);
        lemma_first_min_evicts(policy, s, i);
        assert(evicts_at(policy, s, i) && s[i].0 == victim_spec(policy, s)->0);
    }
}

impl EvictionPolicy {
    fn key(&self, c: &(usize, usize, usize)) -> (k: usize)
        ensures
            k == policy_key(*self, *c),
    {
        match self {
            EvictionPolicy::LRU => c.1,
            EvictionPolicy::LFU => c.2,
            EvictionPolicy::FIFO => 0,
        }
    }

    /// Select a block to evict from candidates `(block_id, last_accessed, access_count)`.
    pub fn select_victim(&self, candidates: &[(usize, usize, usize)]) -> (r: Option<usize>)
        ensures
            r == victim_spec(*self, candidates@),
            r is None <==> candidates@.len() == 0,
            r is Some ==> exists|i: int|
                evicts_at(*self, candidates@, i) && #[trigger] candidates@[i].0 == r->0,
    {
        if candidates.len() == 0 {
            return None;
        }
        let mut best: usize = 0;
        let mut best_key = self.key(&candidates[0]);
        let mut i: usize = 1;
        while i < candidates.len()
            invariant
                1 <= i <= candidates.len(),
                best < i,
                best_key == policy_key(*self, candidates@[best as int]),
                forall|j: int| 0 <= j < i ==> best_key <= policy_key(*self, #[trigger] candidates@[j]),
                forall|j: int| 0 <= j < best ==> policy_key(*self, #[trigger] candidates@[j]) > best_key,
            decreases candidates.len() - i,
        {
            let k = self.key(&candidates[i]);
            if k < best_key {
                best = i;
                best_key = k;
            }
            i = i + 1;
        }
        proof {
            assert(is_first_min(*self, candidates@, best as int));
            let c = choose|x: int| is_first_min(*self, candidates@, x);
            lemma_first_min_unique(*self, candidates@, best as int, c);
            lemma_first_min_evicts(*self, candidates@, best as int);
        }
        Some(candidates[best].0)
    }
}

} // verus!
