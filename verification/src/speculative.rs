use vstd::prelude::*;
use crate::branch::{room_for, BranchView, ExecutionBranch};

verus! {

/// Sum of a sequence of draft lengths.
pub open spec fn length_sum(s: Seq<usize>) -> int
    decreases s.len(),
{
    if s.len() == 0 {
        0
    } else {
        length_sum(s.drop_last()) + s.last()
    }
}

pub proof fn lemma_length_sum_bounds(s: Seq<usize>)
    ensures
        0 <= length_sum(s) <= s.len() * (usize::MAX as int),
    decreases s.len(),
{
    if s.len() > 0 {
        lemma_length_sum_bounds(s.drop_last());
    }
}

/// Abstract counters.
pub struct SpecMetricsView {
    pub total_draft_tokens: u64,
    pub total_accepted_tokens: u64,
    pub total_rollbacks: u64,
    pub draft_lengths: Seq<usize>,
}

/// Counters of speculative decoding (they wrap around on overflow). Acceptance
/// rates are fractions and are kept by the caller.
pub struct SpeculativeMetrics {
    total_draft_tokens: u64,
    total_accepted_tokens: u64,
    total_rollbacks: u64,
    draft_lengths: Vec<usize>,
}

impl View for SpeculativeMetrics {
    type V = SpecMetricsView;

    closed spec fn view(&self) -> SpecMetricsView {
        SpecMetricsView {
            total_draft_tokens: self.total_draft_tokens,
            total_accepted_tokens: self.total_accepted_tokens,
            total_rollbacks: self.total_rollbacks,
            draft_lengths: self.draft_lengths@,
        }
    }
}

impl SpeculativeMetrics {
    /// All counters at zero.
    pub fn new() -> (r: Self)
        ensures
            r@ == (SpecMetricsView {
                total_draft_tokens: 0,
                total_accepted_tokens: 0,
                total_rollbacks: 0,
                draft_lengths: Seq::empty(),
            }),
    {
        SpeculativeMetrics { total_draft_tokens: 0, total_accepted_tokens: 0, total_rollbacks: 0, draft_lengths: Vec::new() }
    }

    pub fn record_draft_length(&mut self, length: usize)
        ensures
            final(self)@ == (SpecMetricsView { draft_lengths: old(self)@.draft_lengths.push(length), ..old(self)@ }),
    {
        self.draft_lengths.push(length);
    }

    pub fn record_rollback(&mut self)
        ensures
            final(self)@ == (SpecMetricsView { total_rollbacks: old(self)@.total_rollbacks.wrapping_add(1), ..old(self)@ }),
    {
        self.total_rollbacks = self.total_rollbacks.wrapping_add(1);
    }

    pub fn record_draft_tokens(&mut self, count: u64)
        ensures
            final(self)@ == (SpecMetricsView {
                total_draft_tokens: old(self)@.total_draft_tokens.wrapping_add(count),
                ..old(self)@
            }),
    {
        self.total_draft_tokens = self.total_draft_tokens.wrapping_add(count);
    }

    pub fn record_accepted_tokens(&mut self, count: u64)
        ensures
            final(self)@ == (SpecMetricsView {
                total_accepted_tokens: old(self)@.total_accepted_tokens.wrapping_add(count),
                ..old(self)@
            }),
    {
        self.total_accepted_tokens = self.total_accepted_tokens.wrapping_add(count);
    }

    pub fn get_total_rollbacks(&self) -> (r: u64)
        ensures
            r == self@.total_rollbacks,
    {
        self.total_rollbacks
    }

    pub fn total_draft_tokens(&self) -> (r: u64)
        ensures
            r == self@.total_draft_tokens,
    {
        self.total_draft_tokens
    }

    pub fn total_accepted_tokens(&self) -> (r: u64)
        ensures
            r == self@.total_accepted_tokens,
    {
        self.total_accepted_tokens
    }

    /// Number of recorded draft lengths.
    pub fn draft_length_count(&self) -> (r: usize)
        ensures
            r == self@.draft_lengths.len(),
    {
        self.draft_lengths.len()
    }

    /// Sum of the recorded draft lengths (their average is this over the count).
    pub fn draft_length_total(&self) -> (r: u128)
        ensures
            r == length_sum(self@.draft_lengths),
    {
        let s = &self.draft_lengths;
        let mut total: u128 = 0;
        let mut i: usize = 0;
        while i < s.len()
            invariant
                i <= s.len(),
                total == length_sum(s@.take(i as int)),
            decreases s.len() - i,
        {
            assert(s@.take(i as int + 1).drop_last() == s@.take(i as int));
            proof {
                lemma_length_sum_bounds(s@.take(i as int + 1));
                assert((i as int + 1) * (usize::MAX as int) < u128::MAX) by (nonlinear_arith)
                    requires
                        i < usize::MAX,
                        usize::MAX <= u64::MAX,
                ;
            }
            total = total + s[i] as u128;
            i = i + 1;
        }
        assert(s@.take(s.len() as int) == s@);
        total
    }
}

/// Number of accepted tokens in a verification outcome.
pub open spec fn accepted(s: Seq<bool>) -> nat
    decreases s.len(),
{
    if s.len() == 0 {
        0
    } else {
        accepted(s.drop_last()) + if s.last() { 1nat } else { 0nat }
    }
}

/// Number of accepted tokens in a verification outcome.
pub fn accepted_count(acceptances: &Vec<bool>) -> (r: usize)
    ensures
        r == accepted(acceptances@),
{
    let mut n: usize = 0;
    let mut i: usize = 0;
    while i < acceptances.len()
        invariant
            i <= acceptances.len(),
            n == accepted(acceptances@.take(i as int)),
            n <= i,
        decreases acceptances.len() - i,
    {
        assert(acceptances@.take(i as int + 1).drop_last() == acceptances@.take(i as int));
        if acceptances[i] {
            n = n + 1;
        }
        i = i + 1;
    }
    assert(acceptances@.take(i as int) == acceptances@);
    n
}

/// Draft length a new branch starts with.
pub const INITIAL_DRAFT_LENGTH: usize = 4;

pub struct CoordinatorView<T> {
    pub branches: Seq<(Seq<char>, BranchView<T>)>,
    pub metrics: SpecMetricsView,
    pub max_draft_length: usize,
    pub current_draft_length: usize,
}

pub open spec fn branch_ids<T>(s: Seq<(Seq<char>, BranchView<T>)>) -> Seq<Seq<char>> {
    s.map_values(|p: (Seq<char>, BranchView<T>)| p.0)
}

pub open spec fn branch_pos<T>(s: Seq<(Seq<char>, BranchView<T>)>, id: Seq<char>) -> int {
    choose|i: int| 0 <= i < s.len() && s[i].0 == id
}

pub open spec fn branch_views<T>(s: Seq<(String, ExecutionBranch<T>)>) -> Seq<(Seq<char>, BranchView<T>)> {
    s.map_values(|p: (String, ExecutionBranch<T>)| (p.0@, p.1@))
}

/// Orchestrates speculative decoding: one branch per request. Drafting tokens and
/// verifying them are the caller's; the coordinator decides how many to draft and
/// keeps the branches and counters.
pub struct SpeculativeCoordinator<T> {
    branches: Vec<(String, ExecutionBranch<T>)>,
    metrics: SpeculativeMetrics,
    max_draft_length: usize,
    current_draft_length: usize,
}

impl<T> View for SpeculativeCoordinator<T> {
    type V = CoordinatorView<T>;

    closed spec fn view(&self) -> CoordinatorView<T> {
        CoordinatorView {
            branches: branch_views(self.branches@),
            metrics: self.metrics@,
            max_draft_length: self.max_draft_length,
            current_draft_length: self.current_draft_length,
        }
    }
}

/// Each request has one branch.
pub open spec fn coordinator_wf<T>(v: CoordinatorView<T>) -> bool {
    branch_ids(v.branches).no_duplicates()
}

/// The branches after replacing the one of `id` by `b`, or adding `b` for it.
pub open spec fn put_branch<T>(s: Seq<(Seq<char>, BranchView<T>)>, id: Seq<char>, b: BranchView<T>) -> Seq<(Seq<char>, BranchView<T>)> {
    if branch_ids(s).contains(id) { s.update(branch_pos(s, id), (id, b)) } else { s.push((id, b)) }
}

impl<T> SpeculativeCoordinator<T> {
    /// No branch yet; drafts of at most `max_draft_length` tokens; new branches
    /// start with a limit of four.
    pub fn new(max_draft_length: usize, metrics: SpeculativeMetrics) -> (r: Self)
        ensures
            coordinator_wf(r@),
            r@.branches.len() == 0,
            r@.metrics == metrics@,
            r@.max_draft_length == max_draft_length,
            r@.current_draft_length == INITIAL_DRAFT_LENGTH,
    {
        let r = SpeculativeCoordinator {
            branches: Vec::new(),
            metrics,
            max_draft_length,
            current_draft_length: INITIAL_DRAFT_LENGTH,
        };
        assert(branch_ids(r@.branches) =~= Seq::<Seq<char>>::empty());
        r
    }

    fn find(&self, request_id: &str) -> (r: Option<usize>)
        requires
            coordinator_wf(self@),
        ensures
            match r {
                Some(i) => i < self@.branches.len() && branch_ids(self@.branches).contains(request_id@)
                    && branch_pos(self@.branches, request_id@) == i && self@.branches[i as int].0 == request_id@,
                None => !branch_ids(self@.branches).contains(request_id@),
            },
    {
        let key: String = request_id.to_owned();
        let mut i: usize = 0;
        while i < self.branches.len()
            invariant
                i <= self.branches.len(),
                coordinator_wf(self@),
                key@ == request_id@,
                forall|j: int| 0 <= j < i ==> self@.branches[j].0 != request_id@,
            decreases self.branches.len() - i,
        {
            if self.branches[i].0 == key {
                let ghost s = self@.branches;
                assert(s[i as int].0 == request_id@);
                assert(branch_ids(s)[i as int] == request_id@);
                let ghost p = branch_pos(s, request_id@);
                assert(0 <= p < s.len() && s[p].0 == request_id@);
                assert(branch_ids(s)[p] == branch_ids(s)[i as int]);
                return Some(i);
            }
            i = i + 1;
        }
        assert forall|j: int| 0 <= j < branch_ids(self@.branches).len() implies branch_ids(self@.branches)[j] != request_id@ by {
            assert(branch_ids(self@.branches)[j] == self@.branches[j].0);
        }
        None
    }

    /// Start a fresh branch for a request (replacing any earlier one), with the
    /// current draft limit.
    pub fn create_branch(&mut self, request_id: &str) -> (r: Result<(), String>)
        requires
            coordinator_wf(old(self)@),
        ensures
            coordinator_wf(final(self)@),
            r is Ok,
            final(self)@ == (CoordinatorView {
                branches: put_branch(old(self)@.branches, request_id@, BranchView {
                    request_id: request_id@,
                    draft: Seq::empty(),
                    verified: Seq::empty(),
                    max_draft_length: old(self)@.current_draft_length,
                }),
                ..old(self)@
            }),
    {
        let ghost s0 = self@.branches;
        let branch = ExecutionBranch::new(request_id.to_owned(), self.current_draft_length);
        match self.find(request_id) {
            Some(i) => {
                self.branches.set(i, (request_id.to_owned(), branch));
                assert(self@.branches =~= s0.update(i as int, self@.branches[i as int]));
                assert(branch_ids(self@.branches) =~= branch_ids(s0));
            },
            None => {
                self.branches.push((request_id.to_owned(), branch));
                assert(self@.branches =~= s0.push(self@.branches.last()));
                assert(branch_ids(self@.branches) =~= branch_ids(s0).push(request_id@));
            },
        }
        Ok(())
    }

    /// How many tokens to draft when `num_tokens` are asked for.
    pub fn draft_length(&self, num_tokens: usize) -> (r: usize)
        ensures
            r == if num_tokens < self@.max_draft_length { num_tokens } else { self@.max_draft_length },
    {
        if num_tokens < self.max_draft_length { num_tokens } else { self.max_draft_length }
    }

    /// Record drafted tokens: their number is counted, and they are added to the
    /// request's branch when it has one.
    pub fn record_draft(&mut self, request_id: &str, tokens: Vec<T>) -> (r: Result<(), String>)
        requires
            coordinator_wf(old(self)@),
        ensures
            coordinator_wf(final(self)@),
            r is Ok,
            final(self)@.metrics == (SpecMetricsView {
                draft_lengths: old(self)@.metrics.draft_lengths.push(tokens@.len() as usize),
                ..old(self)@.metrics
            }),
            final(self)@.max_draft_length == old(self)@.max_draft_length,
            final(self)@.current_draft_length == old(self)@.current_draft_length,
            !branch_ids(old(self)@.branches).contains(request_id@) ==> final(self)@.branches == old(self)@.branches,
            branch_ids(old(self)@.branches).contains(request_id@) ==> ({
                let k = branch_pos(old(self)@.branches, request_id@);
                let b = old(self)@.branches[k].1;
                final(self)@.branches == old(self)@.branches.update(k, (request_id@, BranchView {
                    draft: b.draft + tokens@.take(room_for(b.draft.len(), b.max_draft_length as nat, tokens@.len()) as int),
                    ..b
                }))
            }),
    {
        self.metrics.record_draft_length(tokens.len());
        let ghost s0 = self@.branches;
        match self.find(request_id) {
            Some(i) => {
                let (id, mut branch) = self.branches.remove(i);
                let _ = branch.add_draft_tokens(tokens);
                self.branches.insert(i, (id, branch));
                assert(self@.branches =~= s0.update(i as int, self@.branches[i as int]));
                assert(branch_ids(self@.branches) =~= branch_ids(s0));
            },
            None => {},
        }
        Ok(())
    }

    /// Roll the request's branch back to its first `to_token` draft tokens, and count
    /// the rollback; nothing happens for a request without a branch.
    pub fn rollback(&mut self, request_id: &str, to_token: u32) -> (r: Result<(), String>)
        requires
            coordinator_wf(old(self)@),
        ensures
            coordinator_wf(final(self)@),
            r is Ok,
            final(self)@.max_draft_length == old(self)@.max_draft_length,
            final(self)@.current_draft_length == old(self)@.current_draft_length,
            !branch_ids(old(self)@.branches).contains(request_id@) ==> final(self)@ == old(self)@,
            branch_ids(old(self)@.branches).contains(request_id@) ==> ({
                let k = branch_pos(old(self)@.branches, request_id@);
                let b = old(self)@.branches[k].1;
                &&& final(self)@.branches == old(self)@.branches.update(k, (request_id@, BranchView {
                    draft: if to_token <= b.draft.len() { b.draft.take(to_token as int) } else { b.draft },
                    ..b
                }))
                &&& final(self)@.metrics == (SpecMetricsView {
                    total_rollbacks: old(self)@.metrics.total_rollbacks.wrapping_add(1),
                    ..old(self)@.metrics
                })
            }),
    {
        let ghost s0 = self@.branches;
        match self.find(request_id) {
            Some(i) => {
                let (id, mut branch) = self.branches.remove(i);
                let _ = branch.rollback_to(to_token as usize);
                self.branches.insert(i, (id, branch));
                assert(self@.branches =~= s0.update(i as int, self@.branches[i as int]));
                assert(branch_ids(self@.branches) =~= branch_ids(s0));
                self.metrics.record_rollback();
            },
            None => {},
        }
        Ok(())
    }

    /// Commit the first `num_tokens` draft tokens of the request's branch; nothing
    /// happens for a request without a branch.
    pub fn commit(&mut self, request_id: &str, num_tokens: usize) -> (r: Result<(), String>)
        requires
            coordinator_wf(old(self)@),
        ensures
            coordinator_wf(final(self)@),
            r is Ok,
            final(self)@.metrics == old(self)@.metrics,
            final(self)@.max_draft_length == old(self)@.max_draft_length,
            final(self)@.current_draft_length == old(self)@.current_draft_length,
            !branch_ids(old(self)@.branches).contains(request_id@) ==> final(self)@ == old(self)@,
            branch_ids(old(self)@.branches).contains(request_id@) ==> ({
                let k = branch_pos(old(self)@.branches, request_id@);
                let b = old(self)@.branches[k].1;
                let n = if num_tokens < b.draft.len() { num_tokens as int } else { b.draft.len() as int };
                final(self)@.branches == old(self)@.branches.update(k, (request_id@, BranchView {
                    draft: b.draft.skip(n),
                    verified: b.verified + b.draft.take(n),
                    ..b
                }))
            }),
    {
        let ghost s0 = self@.branches;
        match self.find(request_id) {
            Some(i) => {
                let (id, mut branch) = self.branches.remove(i);
                let _ = branch.commit(num_tokens);
                self.branches.insert(i, (id, branch));
                assert(self@.branches =~= s0.update(i as int, self@.branches[i as int]));
                assert(branch_ids(self@.branches) =~= branch_ids(s0));
            },
            None => {},
        }
        Ok(())
    }

    /// Allow one more draft token for new branches, up to the maximum.
    pub fn grow_draft_length(&mut self)
        requires
            old(self)@.current_draft_length < usize::MAX,
        ensures
            final(self)@ == (CoordinatorView {
                current_draft_length: if old(self)@.current_draft_length < old(self)@.max_draft_length {
                    (old(self)@.current_draft_length + 1) as usize
                } else {
                    old(self)@.max_draft_length
                },
                ..old(self)@
            }),
    {
        if self.current_draft_length < self.max_draft_length {
            self.current_draft_length = self.current_draft_length + 1;
        } else {
            self.current_draft_length = self.max_draft_length;
        }
    }

    /// Allow one draft token less for new branches, down to one.
    pub fn shrink_draft_length(&mut self)
        requires
            old(self)@.current_draft_length >= 1,
        ensures
            final(self)@ == (CoordinatorView {
                current_draft_length: if old(self)@.current_draft_length > 2 {
                    (old(self)@.current_draft_length - 1) as usize
                } else {
                    1
                },
                ..old(self)@
            }),
    {
        if self.current_draft_length > 2 {
            self.current_draft_length = self.current_draft_length - 1;
        } else {
            self.current_draft_length = 1;
        }
    }

    /// The draft limit for new branches.
    pub fn current_draft_length(&self) -> (r: usize)
        ensures
            r == self@.current_draft_length,
    {
        self.current_draft_length
    }

    /// The counters.
    pub fn metrics(&self) -> (r: &SpeculativeMetrics)
        ensures
            r@ == self@.metrics,
    {
        &self.metrics
    }

    /// The counters, for changes.
    pub fn metrics_mut(&mut self) -> (r: &mut SpeculativeMetrics)
        ensures
            r@ == old(self)@.metrics,
            final(self)@ == (CoordinatorView { metrics: final(r)@, ..old(self)@ }),
    {
        &mut self.metrics
    }

    /// Draft and verified lengths of the request's branch, if it has one.
    pub fn branch_lengths(&self, request_id: &str) -> (r: Option<(usize, usize)>)
        requires
            coordinator_wf(self@),
        ensures
            branch_ids(self@.branches).contains(request_id@) ==> r == Some((
                self@.branches[branch_pos(self@.branches, request_id@)].1.draft.len() as usize,
                self@.branches[branch_pos(self@.branches, request_id@)].1.verified.len() as usize,
            )),
            !branch_ids(self@.branches).contains(request_id@) ==> r is None,
    {
        match self.find(request_id) {
            Some(i) => {
                let b = &self.branches[i].1;
                Some((b.draft_length(), b.verified_length()))
            },
            None => None,
        }
    }
}

} // verus!
