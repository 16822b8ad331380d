use vstd::prelude::*;
use crate::consensus::unix_time_ms;
use crate::replicated_log::{
    EntryView, LogEntry, LogError, LogView, ReplicatedLog, entry_views, has_lsn, committable, in_range,
};

verus! {

/// Replication progress of one follower.
#[derive(Clone, Debug)]
pub struct FollowerState {
    pub follower_id: String,
    /// Next LSN to send to this follower.
    pub next_lsn: u64,
    /// Highest LSN known to be replicated on this follower.
    pub match_lsn: u64,
    pub heartbeat_at_ms: u64,
}

pub struct FollowerView {
    pub follower_id: Seq<char>,
    pub next_lsn: u64,
    pub match_lsn: u64,
    pub heartbeat_at_ms: u64,
}

impl View for FollowerState {
    type V = FollowerView;

    open spec fn view(&self) -> FollowerView {
        FollowerView {
            follower_id: self.follower_id@,
            next_lsn: self.next_lsn,
            match_lsn: self.match_lsn,
            heartbeat_at_ms: self.heartbeat_at_ms,
        }
    }
}

impl FollowerState {
    /// A follower that has nothing yet: next LSN 1, match LSN 0, heartbeat now.
    pub fn new(follower_id: String) -> (r: Self)
        ensures
            r@.follower_id == follower_id@,
            r@.next_lsn == 1,
            r@.match_lsn == 0,
    {
        FollowerState { follower_id, next_lsn: 1, match_lsn: 0, heartbeat_at_ms: unix_time_ms() }
    }

    /// A copy of this state.
    pub fn duplicate(&self) -> (r: Self)
        ensures
            r@ == self@,
    {
        FollowerState {
            follower_id: self.follower_id.clone(),
            next_lsn: self.next_lsn,
            match_lsn: self.match_lsn,
            heartbeat_at_ms: self.heartbeat_at_ms,
        }
    }
}

pub open spec fn follower_views(s: Seq<FollowerState>) -> Seq<FollowerView> {
    s.map_values(|f: FollowerState| f@)
}

pub open spec fn follower_ids(s: Seq<FollowerView>) -> Seq<Seq<char>> {
    s.map_values(|f: FollowerView| f.follower_id)
}

/// Number of followers whose match LSN is at least `lsn`.
pub open spec fn count_matched(fs: Seq<FollowerView>, lsn: u64) -> nat
    decreases fs.len(),
{
    if fs.len() == 0 {
        0
    } else {
        count_matched(fs.drop_last(), lsn) + if fs.last().match_lsn >= lsn { 1nat } else { 0nat }
    }
}

pub proof fn lemma_count_matched_bounded(fs: Seq<FollowerView>, lsn: u64)
    ensures
        count_matched(fs, lsn) <= fs.len(),
    decreases fs.len(),
{
    if fs.len() > 0 {
        lemma_count_matched_bounded(fs.drop_last(), lsn);
    }
}

/// The followers whose match LSN has reached `lsn`.
pub open spec fn matched_followers(fs: Seq<FollowerView>, lsn: u64) -> Seq<FollowerView> {
    fs.filter(|f: FollowerView| f.match_lsn >= lsn)
}

/// `count_matched` counts exactly the followers whose match LSN has reached `lsn`.
pub proof fn lemma_count_matched_is_filter(fs: Seq<FollowerView>, lsn: u64)
    ensures
        count_matched(fs, lsn) == matched_followers(fs, lsn).len(),
    decreases fs.len(),
{
    if fs.len() > 0 {
        lemma_count_matched_is_filter(fs.drop_last(), lsn);
        reveal(Seq::filter);
    }
}

/// Least match LSN over the followers; 0 when there is none.
pub open spec fn min_match(fs: Seq<FollowerView>) -> u64
    decreases fs.len(),
{
    if fs.len() == 0 {
        0
    } else if fs.len() == 1 {
        fs[0].match_lsn
    } else {
        let m = min_match(fs.drop_last());
        if fs.last().match_lsn < m { fs.last().match_lsn } else { m }
    }
}

/// The least match LSN is at most each follower's, and is one of them.
pub proof fn lemma_min_match_is_min(fs: Seq<FollowerView>)
    ensures
        forall|i: int| 0 <= i < fs.len() ==> min_match(fs) <= (#[trigger] fs[i]).match_lsn,
        fs.len() > 0 ==> exists|i: int| 0 <= i < fs.len() && (#[trigger] fs[i]).match_lsn == min_match(fs),
    decreases fs.len(),
{
    if fs.len() > 1 {
        lemma_min_match_is_min(fs.drop_last());
        let m = min_match(fs.drop_last());
        assert forall|i: int| 0 <= i < fs.len() implies min_match(fs) <= (#[trigger] fs[i]).match_lsn by {
            if i < fs.len() - 1 {
                assert(fs.drop_last()[i] == fs[i]);
            }
        }
        if fs.last().match_lsn >= m {
            let k = choose|i: int| 0 <= i < fs.drop_last().len() && (#[trigger] fs.drop_last()[i]).match_lsn == m;
            assert(fs[k] == fs.drop_last()[k]);
        } else {
            assert(fs[fs.len() - 1].match_lsn == min_match(fs));
        }
    } else if fs.len() == 1 {
        assert(fs[0].match_lsn == min_match(fs));
    }
}

/// Whether `lsn` is held by a majority of the cluster: the leader and the
/// followers whose match LSN reached it.
pub open spec fn quorum_replicated(fs: Seq<FollowerView>, lsn: u64) -> bool {
    1 + count_matched(fs, lsn) >= (fs.len() + 1) / 2 + 1
}

/// An entry is held by a quorum exactly when the leader together with the followers
/// whose match LSN reached it make up more than half of the cluster (the followers
/// and the leader).
pub proof fn lemma_quorum_is_majority(fs: Seq<FollowerView>, lsn: u64)
    ensures
        quorum_replicated(fs, lsn) <==> 2 * (1 + matched_followers(fs, lsn).len()) > fs.len() + 1,
{
    lemma_count_matched_is_filter(fs, lsn);
}

/// Why a replication request was refused.
#[derive(Clone, Copy, Debug, PartialEq, Eq, Structural)]
pub enum ReplicationError {
    AlreadyRegistered,
    FollowerNotFound,
    Log(LogError),
}

/// Snapshot of replication progress.
#[derive(Clone, Copy, Debug, PartialEq, Eq)]
pub struct ReplicationStatus {
    pub total_followers: usize,
    pub replicated_followers: usize,
    pub last_lsn: u64,
    pub commit_index: u64,
    pub min_match_lsn: u64,
}

/// Tracks the followers of a leader.
pub struct StateMachineReplication {
    followers: Vec<FollowerState>,
}

impl View for StateMachineReplication {
    type V = Seq<FollowerView>;

    closed spec fn view(&self) -> Seq<FollowerView> {
        follower_views(self.followers@)
    }
}

/// Position of the follower named `id`.
pub open spec fn follower_index(fs: Seq<FollowerView>, id: Seq<char>) -> int {
    follower_ids(fs).index_of(id)
}

impl StateMachineReplication {
    /// Each follower is held once.
    pub open spec fn wf_view(fs: Seq<FollowerView>) -> bool {
        follower_ids(fs).no_duplicates()
    }

    /// No follower yet.
    pub fn new() -> (r: Self)
        ensures
            r@.len() == 0,
    {
        StateMachineReplication { followers: Vec::new() }
    }

    fn find(&self, id: &String) -> (r: Option<usize>)
        requires
            Self::wf_view(self@),
        ensures
            match r {
                Some(i) => i < self@.len() && self@[i as int].follower_id == id@
                    && follower_ids(self@).contains(id@) && follower_index(self@, id@) == i,
                None => !follower_ids(self@).contains(id@),
            },
    {
        let mut i: usize = 0;
        while i < self.followers.len()
            invariant
                i <= self.followers.len(),
                Self::wf_view(self@),
                forall|j: int| 0 <= j < i ==> (#[trigger] self@[j]).follower_id != id@,
            decreases self.followers.len() - i,
        {
            if self.followers[i].follower_id == *id {
                proof {
                    assert(follower_ids(self@)[i as int] == id@);
                    let c = follower_index(self@, id@);
                    assert(follower_ids(self@)[c] == id@);
                }
                return Some(i);
            }
            assert(self@[i as int].follower_id != id@);
            i = i + 1;
        }
        assert forall|j: int| 0 <= j < follower_ids(self@).len() implies follower_ids(self@)[j] != id@ by {
            assert(self@[j].follower_id != id@);
        }
        None
    }

    /// Start tracking a follower; a follower tracked already is refused.
    pub fn register_follower(&mut self, follower_id: &str) -> (r: Result<(), ReplicationError>)
        requires
            Self::wf_view(old(self)@),
        ensures
            Self::wf_view(final(self)@),
            follower_ids(old(self)@).contains(follower_id@) ==> r == Err::<(), ReplicationError>(ReplicationError::AlreadyRegistered)
                && final(self)@ == old(self)@,
            !follower_ids(old(self)@).contains(follower_id@) ==> r is Ok
                && final(self)@.len() == old(self)@.len() + 1
                && final(self)@.drop_last() == old(self)@
                && final(self)@.last().follower_id == follower_id@
                && final(self)@.last().next_lsn == 1
                && final(self)@.last().match_lsn == 0,
    {
        let id: String = follower_id.to_owned();
        if self.find(&id).is_some() {
            return Err(ReplicationError::AlreadyRegistered);
        }
        let f = FollowerState::new(id);
        self.followers.push(f);
        assert(self@.drop_last() =~= old(self)@);
        assert(follower_ids(self@) =~= follower_ids(old(self)@).push(follower_id@));
        Ok(())
    }

    /// Stop tracking a follower; an unknown follower is refused.
    pub fn unregister_follower(&mut self, follower_id: &str) -> (r: Result<(), ReplicationError>)
        requires
            Self::wf_view(old(self)@),
        ensures
            Self::wf_view(final(self)@),
            !follower_ids(old(self)@).contains(follower_id@) ==> r == Err::<(), ReplicationError>(ReplicationError::FollowerNotFound)
                && final(self)@ == old(self)@,
            follower_ids(old(self)@).contains(follower_id@) ==> r is Ok
                && final(self)@ == old(self)@.remove(follower_index(old(self)@, follower_id@)),
    {
        let id: String = follower_id.to_owned();
        match self.find(&id) {
            None => Err(ReplicationError::FollowerNotFound),
            Some(i) => {
                self.followers.remove(i);
                assert(self@ =~= old(self)@.remove(i as int));
                assert(follower_ids(self@) =~= follower_ids(old(self)@).remove(i as int));
                Ok(())
            },
        }
    }

    /// The state of a follower.
    pub fn get_follower(&self, follower_id: &str) -> (r: Option<FollowerState>)
        requires
            Self::wf_view(self@),
        ensures
            !follower_ids(self@).contains(follower_id@) ==> r is None,
            follower_ids(self@).contains(follower_id@) ==> r is Some
                && r->0@ == self@[follower_index(self@, follower_id@)],
    {
        let id: String = follower_id.to_owned();
        match self.find(&id) {
            None => None,
            Some(i) => Some(self.followers[i].duplicate()),
        }
    }

    /// All followers, in registration order.
    pub fn followers(&self) -> (r: Vec<FollowerState>)
        ensures
            follower_views(r@) == self@,
    {
        let mut out: Vec<FollowerState> = Vec::new();
        let mut i: usize = 0;
        while i < self.followers.len()
            invariant
                i <= self.followers.len(),
                follower_views(out@) == self@.take(i as int),
            decreases self.followers.len() - i,
        {
            let ghost before = follower_views(out@);
            let d = self.followers[i].duplicate();
            assert(d@ == self@[i as int]);
            out.push(d);
            assert(follower_views(out@) =~= before.push(self@[i as int]));
            assert(self@.take(i as int + 1) =~= self@.take(i as int).push(self@[i as int]));
            i = i + 1;
        }
        assert(self@.take(self.followers.len() as int) == self@);
        out
    }

    /// Entries a follower still needs: LSN from its next LSN up to the last LSN of
    /// `log`, in log order (none when its next LSN is past the last).
    pub fn get_entries_for_follower(&self, follower_id: &str, log: &ReplicatedLog) -> (r: Result<Vec<LogEntry>, ReplicationError>)
        requires
            Self::wf_view(self@),
        ensures
            !follower_ids(self@).contains(follower_id@) ==> r == Err::<Vec<LogEntry>, ReplicationError>(ReplicationError::FollowerNotFound),
            follower_ids(self@).contains(follower_id@) ==> ({
                let from = self@[follower_index(self@, follower_id@)].next_lsn;
                let last = if log@.entries.len() == 0 { 0 } else { log@.entries.last().lsn };
                &&& r is Ok
                &&& from > last ==> r->Ok_0@.len() == 0
                &&& from <= last ==> entry_views(r->Ok_0@) == log@.entries.filter(in_range(from, last))
            }),
    {
        let id: String = follower_id.to_owned();
        match self.find(&id) {
            None => Err(ReplicationError::FollowerNotFound),
            Some(i) => {
                let from_lsn = self.followers[i].next_lsn;
                let last_lsn = match log.last_lsn() {
                    Some(l) => l,
                    None => 0,
                };
                if from_lsn > last_lsn {
                    return Ok(Vec::new());
                }
                Ok(log.get_range(from_lsn, last_lsn))
            },
        }
    }

    /// A follower confirmed holding everything up to `replicated_lsn`: its match LSN
    /// becomes that LSN and its next LSN the one after; its heartbeat is now.
    pub fn acknowledge_replication(&mut self, follower_id: &str, replicated_lsn: u64) -> (r: Result<(), ReplicationError>)
        requires
            Self::wf_view(old(self)@),
            replicated_lsn < u64::MAX,
        ensures
            Self::wf_view(final(self)@),
            !follower_ids(old(self)@).contains(follower_id@) ==> r == Err::<(), ReplicationError>(ReplicationError::FollowerNotFound)
                && final(self)@ == old(self)@,
            follower_ids(old(self)@).contains(follower_id@) ==> ({
                let i = follower_index(old(self)@, follower_id@);
                &&& r is Ok
                &&& final(self)@ == old(self)@.update(i, FollowerView {
                    next_lsn: (replicated_lsn + 1) as u64,
                    match_lsn: replicated_lsn,
                    heartbeat_at_ms: final(self)@[i].heartbeat_at_ms,
                    ..old(self)@[i]
                })
            }),
    {
        let id: String = follower_id.to_owned();
        match self.find(&id) {
            None => Err(ReplicationError::FollowerNotFound),
            Some(i) => {
                let now = unix_time_ms();
                let f = FollowerState {
                    follower_id: self.followers[i].follower_id.clone(),
                    next_lsn: replicated_lsn + 1,
                    match_lsn: replicated_lsn,
                    heartbeat_at_ms: now,
                };
                self.followers.set(i, f);
                assert(follower_ids(self@) =~= follower_ids(old(self)@));
                Ok(())
            },
        }
    }

    /// A follower refused entries: its next LSN backs off by one, not below 1.
    pub fn acknowledge_replication_failure(&mut self, follower_id: &str) -> (r: Result<(), ReplicationError>)
        requires
            Self::wf_view(old(self)@),
        ensures
            Self::wf_view(final(self)@),
            !follower_ids(old(self)@).contains(follower_id@) ==> r == Err::<(), ReplicationError>(ReplicationError::FollowerNotFound)
                && final(self)@ == old(self)@,
            follower_ids(old(self)@).contains(follower_id@) ==> ({
                let i = follower_index(old(self)@, follower_id@);
                let f = old(self)@[i];
                &&& r is Ok
                &&& final(self)@ == old(self)@.update(i, FollowerView {
                    next_lsn: if f.next_lsn > 1 { (f.next_lsn - 1) as u64 } else { f.next_lsn },
                    ..f
                })
            }),
    {
        let id: String = follower_id.to_owned();
        match self.find(&id) {
            None => Err(ReplicationError::FollowerNotFound),
            Some(i) => {
                let old_next = self.followers[i].next_lsn;
                let f = FollowerState {
                    follower_id: self.followers[i].follower_id.clone(),
                    next_lsn: if old_next > 1 { old_next - 1 } else { old_next },
                    match_lsn: self.followers[i].match_lsn,
                    heartbeat_at_ms: self.followers[i].heartbeat_at_ms,
                };
                self.followers.set(i, f);
                assert(follower_ids(self@) =~= follower_ids(old(self)@));
                Ok(())
            },
        }
    }

    fn count_matched_exec(&self, lsn: u64) -> (r: usize)
        ensures
            r == count_matched(self@, lsn),
    {
        let mut c: usize = 0;
        let mut i: usize = 0;
        while i < self.followers.len()
            invariant
                i <= self.followers.len(),
                c == count_matched(self@.take(i as int), lsn),
                c <= i,
            decreases self.followers.len() - i,
        {
            assert(self@.take(i as int + 1).drop_last() == self@.take(i as int));
            if self.followers[i].match_lsn >= lsn {
                c = c + 1;
            }
            i = i + 1;
        }
        assert(self@.take(self.followers.len() as int) == self@);
        c
    }

    /// Whether a majority of the cluster (the leader and its followers) holds `lsn`.
    pub fn has_quorum_replication(&self, lsn: u64) -> (r: bool)
        ensures
            r == quorum_replicated(self@, lsn),
            r == (2 * (1 + matched_followers(self@, lsn).len()) > self@.len() + 1),
    {
        let matched = self.count_matched_exec(lsn);
        let n = self.followers.len();
        proof {
            lemma_count_matched_bounded(self@, lsn);
            lemma_quorum_is_majority(self@, lsn);
        }
        if n == usize::MAX {
            // n + 1 nodes: the majority is (n + 1) / 2 + 1 = n / 2 + 1 for odd n
            return 1 + (matched as u128) >= (n as u128 + 1) / 2 + 1;
        }
        let total_nodes = n + 1;
        let quorum_size = (total_nodes / 2) + 1;
        matched + 1 >= quorum_size
    }

    /// Least match LSN over the followers; 0 when there is none.
    pub fn min_match_lsn(&self) -> (r: u64)
        ensures
            r == min_match(self@),
    {
        if self.followers.len() == 0 {
            return 0;
        }
        let mut m = self.followers[0].match_lsn;
        let mut i: usize = 1;
        while i < self.followers.len()
            invariant
                1 <= i <= self.followers.len(),
                m == min_match(self@.take(i as int)),
            decreases self.followers.len() - i,
        {
            assert(self@.take(i as int + 1).drop_last() == self@.take(i as int));
            let x = self.followers[i].match_lsn;
            if x < m {
                m = x;
            }
            i = i + 1;
        }
        assert(self@.take(self.followers.len() as int) == self@);
        m
    }

    /// Commit `log` up to the least match LSN when that is above its commit index.
    pub fn advance_commit_index(&self, log: &mut ReplicatedLog) -> (r: Result<(), ReplicationError>)
        ensures
            min_match(self@) <= old(log)@.commit_index ==> r is Ok && final(log)@ == old(log)@,
            min_match(self@) > old(log)@.commit_index && !committable(old(log)@.entries, min_match(self@))
                ==> r == Err::<(), ReplicationError>(ReplicationError::Log(LogError::NoEntry { lsn: min_match(self@) }))
                && final(log)@ == old(log)@,
            min_match(self@) > old(log)@.commit_index && committable(old(log)@.entries, min_match(self@))
                ==> r is Ok && final(log)@ == (LogView { commit_index: min_match(self@), ..old(log)@ }),
    {
        let current_commit = log.commit_index();
        let min_m = self.min_match_lsn();
        if min_m > current_commit {
            match log.commit(min_m) {
                Ok(()) => {},
                Err(e) => return Err(ReplicationError::Log(e)),
            }
        }
        Ok(())
    }

    /// Followers, followers whose match LSN reached the commit index, the last LSN,
    /// the commit index and the least match LSN.
    pub fn replication_status(&self, log: &ReplicatedLog) -> (r: ReplicationStatus)
        ensures
            r.total_followers == self@.len(),
            r.replicated_followers == count_matched(self@, log@.commit_index),
            r.last_lsn == if log@.entries.len() == 0 { 0 } else { log@.entries.last().lsn },
            r.commit_index == log@.commit_index,
            r.min_match_lsn == min_match(self@),
    {
        let commit = log.commit_index();
        ReplicationStatus {
            total_followers: self.followers.len(),
            replicated_followers: self.count_matched_exec(commit),
            last_lsn: match log.last_lsn() {
                Some(l) => l,
                None => 0,
            },
            commit_index: commit,
            min_match_lsn: self.min_match_lsn(),
        }
    }

    /// Whether at least `heartbeat_interval_ms` has passed between the follower's last
    /// heartbeat and `now_ms`; false for an unknown follower.
    pub fn needs_heartbeat_at(&self, follower_id: &str, heartbeat_interval_ms: u64, now_ms: u64) -> (r: bool)
        requires
            Self::wf_view(self@),
        ensures
            !follower_ids(self@).contains(follower_id@) ==> !r,
            follower_ids(self@).contains(follower_id@) ==> ({
                let f = self@[follower_index(self@, follower_id@)];
                r == (now_ms >= f.heartbeat_at_ms && now_ms - f.heartbeat_at_ms >= heartbeat_interval_ms)
            }),
    {
        let id: String = follower_id.to_owned();
        match self.find(&id) {
            None => false,
            Some(i) => {
                let hb = self.followers[i].heartbeat_at_ms;
                now_ms >= hb && now_ms - hb >= heartbeat_interval_ms
            },
        }
    }

    /// Whether a heartbeat is due for a follower, by the clock: the answer of
    /// `needs_heartbeat_at` for the clock's reading.
    pub fn needs_heartbeat(&self, follower_id: &str, heartbeat_interval_ms: u64) -> (r: bool)
        requires
            Self::wf_view(self@),
        ensures
            !follower_ids(self@).contains(follower_id@) ==> !r,
            follower_ids(self@).contains(follower_id@) ==> exists|now_ms: u64|
                r == #[trigger] heartbeat_due(self@[follower_index(self@, follower_id@)].heartbeat_at_ms, now_ms, heartbeat_interval_ms),
    {
        let now = unix_time_ms();
        let r = self.needs_heartbeat_at(follower_id, heartbeat_interval_ms, now);
        proof {
            if follower_ids(self@).contains(follower_id@) {
                assert(r == heartbeat_due(self@[follower_index(self@, follower_id@)].heartbeat_at_ms, now, heartbeat_interval_ms));
            }
        }
        r
    }
}

/// Whether `interval_ms` or more passed from a heartbeat at `last_ms` to `now_ms`.
pub open spec fn heartbeat_due(last_ms: u64, now_ms: u64, interval_ms: u64) -> bool {
    now_ms >= last_ms && now_ms - last_ms >= interval_ms
}

/// The least match LSN is held by every follower, so with the leader it is held by
/// the whole cluster and in particular by a majority.
pub proof fn lemma_min_match_quorum(fs: Seq<FollowerView>)
    ensures
        quorum_replicated(fs, min_match(fs)),
    decreases fs.len(),
{
    lemma_min_match_is_min(fs);
    lemma_all_matched(fs, min_match(fs));
}

proof fn lemma_all_matched(fs: Seq<FollowerView>, lsn: u64)
    requires
        forall|i: int| 0 <= i < fs.len() ==> lsn <= (#[trigger] fs[i]).match_lsn,
    ensures
        count_matched(fs, lsn) == fs.len(),
    decreases fs.len(),
{
    if fs.len() > 0 {
        assert forall|i: int| 0 <= i < fs.drop_last().len() implies lsn <= (#[trigger] fs.drop_last()[i]).match_lsn by {
            assert(fs.drop_last()[i] == fs[i]);
        }
        lemma_all_matched(fs.drop_last(), lsn);
        assert(fs.last() == fs[fs.len() - 1]);
    }
}

} // verus!
