use vstd::prelude::*;
use std::collections::VecDeque;

verus! {

/// Abstract branch.
pub struct BranchView<T> {
    pub request_id: Seq<char>,
    pub draft: Seq<T>,
    pub verified: Seq<T>,
    pub max_draft_length: usize,
}

/// A speculative execution path: draft tokens awaiting verification, and the
/// tokens verified so far. At most `max_draft_length` tokens are drafted.
pub struct ExecutionBranch<T> {
    request_id: String,
    draft_tokens: VecDeque<T>,
    verified_tokens: VecDeque<T>,
    max_draft_length: usize,
}

impl<T> View for ExecutionBranch<T> {
    type V = BranchView<T>;

    closed spec fn view(&self) -> BranchView<T> {
        BranchView {
            request_id: self.request_id@,
            draft: self.draft_tokens@,
            verified: self.verified_tokens@,
            max_draft_length: self.max_draft_length,
        }
    }
}

/// How many of `n` offered tokens fit in a draft of length `len`.
pub open spec fn room_for(len: nat, max: nat, n: nat) -> nat {
    if len >= max { 0 } else if n < max - len { n } else { (max - len) as nat }
}

impl<T> ExecutionBranch<T> {
    /// An empty branch for a request.
    pub fn new(request_id: String, max_draft_length: usize) -> (r: Self)
        ensures
            r@ == (BranchView {
                request_id: request_id@,
                draft: Seq::<T>::empty(),
                verified: Seq::<T>::empty(),
                max_draft_length,
            }),
    {
        ExecutionBranch { request_id, draft_tokens: VecDeque::new(), verified_tokens: VecDeque::new(), max_draft_length }
    }

    /// Append draft tokens in order while the draft is shorter than its limit; the
    /// rest are dropped.
    pub fn add_draft_tokens(&mut self, tokens: Vec<T>) -> (r: Result<(), String>)
        ensures
            r is Ok,
            final(self)@ == (BranchView {
                draft: old(self)@.draft + tokens@.take(
                    room_for(old(self)@.draft.len(), old(self)@.max_draft_length as nat, tokens@.len()) as int,
                ),
                ..old(self)@
            }),
    {
        let ghost d0 = self.draft_tokens@;
        let ghost all = tokens@;
        assert(all.len() == tokens.len());
        let mut rest = tokens;
        let mut i: usize = 0;
        while rest.len() > 0
            invariant
                i + rest@.len() == all.len(),
                all.len() <= usize::MAX,
                rest@ == all.skip(i as int),
                self.max_draft_length == old(self)@.max_draft_length,
                self.request_id == old(self).request_id,
                self.verified_tokens@ == old(self)@.verified,
                d0 == old(self)@.draft,
                self.draft_tokens@ == d0 + all.take(room_for(d0.len(), self.max_draft_length as nat, i as nat) as int),
            decreases rest.len(),
        {
            let token = rest.remove(0);
            assert(token == all[i as int]);
            let ghost k = room_for(d0.len(), self.max_draft_length as nat, i as nat);
            if self.draft_tokens.len() < self.max_draft_length {
                self.draft_tokens.push_back(token);
                assert(all.take(k as int + 1) == all.take(k as int).push(all[i as int]));
            }
            assert(rest@ =~= all.skip(i as int + 1));
            i = i + 1;
        }
        Ok(())
    }

    /// Keep the first `position` draft tokens.
    pub fn rollback_to(&mut self, position: usize) -> (r: Result<(), String>)
        ensures
            r is Ok,
            final(self)@ == (BranchView {
                draft: if position <= old(self)@.draft.len() { old(self)@.draft.take(position as int) } else { old(self)@.draft },
                ..old(self)@
            }),
    {
        self.draft_tokens.truncate(position);
        Ok(())
    }

    /// Move the first `num_tokens` draft tokens (or all, when fewer) to the verified ones.
    pub fn commit(&mut self, num_tokens: usize) -> (r: Result<(), String>)
        ensures
            r is Ok,
            ({
                let k = if num_tokens < old(self)@.draft.len() { num_tokens as int } else { old(self)@.draft.len() as int };
                final(self)@ == (BranchView {
                    draft: old(self)@.draft.skip(k),
                    verified: old(self)@.verified + old(self)@.draft.take(k),
                    ..old(self)@
                })
            }),
    {
        let ghost d0 = self.draft_tokens@;
        let ghost v0 = self.verified_tokens@;
        let mut i: usize = 0;
        while i < num_tokens
            invariant
                i <= num_tokens,
                self.max_draft_length == old(self)@.max_draft_length,
                self.request_id == old(self).request_id,
                d0 == old(self)@.draft,
                v0 == old(self)@.verified,
                ({
                    let k = if (i as int) < d0.len() { i as int } else { d0.len() as int };
                    &&& self.draft_tokens@ == d0.skip(k)
                    &&& self.verified_tokens@ == v0 + d0.take(k)
                }),
            decreases num_tokens - i,
        {
            let ghost k = if (i as int) < d0.len() { i as int } else { d0.len() as int };
            match self.draft_tokens.pop_front() {
                Some(token) => {
                    assert(token == d0[k]);
                    self.verified_tokens.push_back(token);
                    assert(d0.take(k + 1) == d0.take(k).push(d0[k]));
                    assert(self.draft_tokens@ =~= d0.skip(k + 1));
                    assert(self.verified_tokens@ =~= v0 + d0.take(k + 1));
                },
                None => {},
            }
            i = i + 1;
        }
        Ok(())
    }

    /// Number of draft tokens.
    pub fn draft_length(&self) -> (r: usize)
        ensures
            r == self@.draft.len(),
    {
        self.draft_tokens.len()
    }

    /// Number of verified tokens.
    pub fn verified_length(&self) -> (r: usize)
        ensures
            r == self@.verified.len(),
    {
        self.verified_tokens.len()
    }
}

impl<T: Clone> ExecutionBranch<T> {
    /// Clones of the draft tokens, in order.
    pub fn draft_tokens(&self) -> (r: Vec<T>)
        ensures
            r@.len() == self@.draft.len(),
            forall|i: int| 0 <= i < r@.len() ==> cloned::<T>(self@.draft[i], #[trigger] r@[i]),
    {
        let mut out: Vec<T> = Vec::new();
        let mut i: usize = 0;
        while i < self.draft_tokens.len()
            invariant
                i <= self.draft_tokens@.len(),
                out@.len() == i,
                forall|j: int| 0 <= j < i ==> cloned::<T>(self@.draft[j], #[trigger] out@[j]),
            decreases self.draft_tokens@.len() - i,
        {
            out.push(self.draft_tokens[i].clone());
            i = i + 1;
        }
        out
    }

    /// Clones of the verified tokens, in order.
    pub fn verified_tokens(&self) -> (r: Vec<T>)
        ensures
            r@.len() == self@.verified.len(),
            forall|i: int| 0 <= i < r@.len() ==> cloned::<T>(self@.verified[i], #[trigger] r@[i]),
    {
        let mut out: Vec<T> = Vec::new();
        let mut i: usize = 0;
        while i < self.verified_tokens.len()
            invariant
                i <= self.verified_tokens@.len(),
                out@.len() == i,
                forall|j: int| 0 <= j < i ==> cloned::<T>(self@.verified[j], #[trigger] out@[j]),
            decreases self.verified_tokens@.len() - i,
        {
            out.push(self.verified_tokens[i].clone());
            i = i + 1;
        }
        out
    }
}

} // verus!
