use vstd::prelude::*;
use crate::consensus::unix_time_ms;

verus! {

/// Log sequence number.
pub type Lsn = u64;

/// Term number of a leadership epoch.
pub type Term = u64;


/// A copy of a vector of block ids.
pub fn copy_usizes(v: &Vec<usize>) -> (r: Vec<usize>)
    ensures
        r@ == v@,
{
    let mut r: Vec<usize> = Vec::new();
    let mut i: usize = 0;
    while i < v.len()
        invariant
            i <= v.len(),
            r@ == v@.take(i as int),
        decreases v.len() - i,
    {
        r.push(v[i]);
        assert(v@.take(i as int + 1) == v@.take(i as int).push(v@[i as int]));
        i = i + 1;
    }
    assert(v@.take(v.len() as int) == v@);
    r
}

/// Operation carried by a log entry.
#[derive(Clone, Debug, PartialEq)]
pub enum LogOperation {
    Allocate { request_id: String, num_blocks: usize },
    Deallocate { request_id: String, blocks: Vec<usize> },
    RegisterPeer { peer_id: String, peer_addr: String, capacity: usize },
}

/// Abstract operation.
pub enum OpView {
    Allocate { request_id: Seq<char>, num_blocks: usize },
    Deallocate { request_id: Seq<char>, blocks: Seq<usize> },
    RegisterPeer { peer_id: Seq<char>, peer_addr: Seq<char>, capacity: usize },
}

impl View for LogOperation {
    type V = OpView;

    open spec fn view(&self) -> OpView {
        match self {
            LogOperation::Allocate { request_id, num_blocks } => OpView::Allocate {
                request_id: request_id@,
                num_blocks: *num_blocks,
            },
            LogOperation::Deallocate { request_id, blocks } => OpView::Deallocate {
                request_id: request_id@,
                blocks: blocks@,
            },
            LogOperation::RegisterPeer { peer_id, peer_addr, capacity } => OpView::RegisterPeer {
                peer_id: peer_id@,
                peer_addr: peer_addr@,
                capacity: *capacity,
            },
        }
    }
}

impl LogOperation {
    /// A copy of this operation.
    pub fn duplicate(&self) -> (r: Self)
        ensures
            r@ == self@,
    {
        match self {
            LogOperation::Allocate { request_id, num_blocks } => LogOperation::Allocate {
                request_id: request_id.clone(),
                num_blocks: *num_blocks,
            },
            LogOperation::Deallocate { request_id, blocks } => LogOperation::Deallocate {
                request_id: request_id.clone(),
                blocks: copy_usizes(blocks),
            },
            LogOperation::RegisterPeer { peer_id, peer_addr, capacity } => LogOperation::RegisterPeer {
                peer_id: peer_id.clone(),
                peer_addr: peer_addr.clone(),
                capacity: *capacity,
            },
        }
    }
}

/// A single log entry.
#[derive(Clone, Debug)]
pub struct LogEntry {
    pub lsn: Lsn,
    pub term: Term,
    pub operation: LogOperation,
    pub timestamp_ms: u64,
}

/// Abstract log entry.
pub struct EntryView {
    pub lsn: Lsn,
    pub term: Term,
    pub operation: OpView,
    pub timestamp_ms: u64,
}

impl View for LogEntry {
    type V = EntryView;

    open spec fn view(&self) -> EntryView {
        EntryView {
            lsn: self.lsn,
            term: self.term,
            operation: self.operation@,
            timestamp_ms: self.timestamp_ms,
        }
    }
}

pub open spec fn entry_views(s: Seq<LogEntry>) -> Seq<EntryView> {
    s.map_values(|e: LogEntry| e@)
}

impl LogEntry {
    /// Create an entry stamped with the current time.
    pub fn new(lsn: Lsn, term: Term, operation: LogOperation) -> (r: Self)
        ensures
            r.lsn == lsn,
            r.term == term,
            r.operation == operation,
    {
        LogEntry { lsn, term, operation, timestamp_ms: unix_time_ms() }
    }

    /// A copy of this entry.
    pub fn duplicate(&self) -> (r: Self)
        ensures
            r@ == self@,
    {
        LogEntry {
            lsn: self.lsn,
            term: self.term,
            operation: self.operation.duplicate(),
            timestamp_ms: self.timestamp_ms,
        }
    }
}

/// Why a log operation was refused.
#[derive(Clone, Copy, Debug, PartialEq, Eq, Structural)]
pub enum LogError {
    /// The log holds its maximum number of entries.
    Full,
    /// The target is below the current index.
    Backwards { requested: Lsn, current: Lsn },
    /// No entry carries this LSN.
    NoEntry { lsn: Lsn },
}

/// Abstract replicated log.
pub struct LogView {
    pub entries: Seq<EntryView>,
    pub commit_index: Lsn,
    pub last_applied: Lsn,
    pub max_entries: usize,
}

/// Whether some entry carries `lsn`.
pub open spec fn has_lsn(es: Seq<EntryView>, lsn: Lsn) -> bool {
    exists|i: int| 0 <= i < es.len() && (#[trigger] es[i]).lsn == lsn
}

/// Whether the log can commit up to `lsn`: an entry carries it, or the log holds at
/// least `lsn` entries (a log that took an entry twice can commit each position).
pub open spec fn committable(es: Seq<EntryView>, lsn: Lsn) -> bool {
    has_lsn(es, lsn) || (1 <= lsn && lsn <= es.len())
}

/// `i` is the first position whose entry carries `lsn`.
pub open spec fn first_with_lsn(es: Seq<EntryView>, lsn: Lsn, i: int) -> bool {
    &&& 0 <= i < es.len()
    &&& es[i].lsn == lsn
    &&& forall|j: int| 0 <= j < i ==> (#[trigger] es[j]).lsn != lsn
}

/// The entry `get` returns: the first that carries `lsn`.
pub open spec fn lookup(es: Seq<EntryView>, lsn: Lsn) -> Option<EntryView> {
    if has_lsn(es, lsn) {
        Some(es[choose|i: int| first_with_lsn(es, lsn, i)])
    } else {
        None
    }
}

pub proof fn lemma_first_with_lsn_unique(es: Seq<EntryView>, lsn: Lsn, i: int, k: int)
    requires
        first_with_lsn(es, lsn, i),
        first_with_lsn(es, lsn, k),
    ensures
        i == k,
{
    if i < k {
        assert(es[i].lsn != lsn);
    } else if k < i {
        assert(es[k].lsn != lsn);
    }
}

pub open spec fn in_range(from: Lsn, to: Lsn) -> spec_fn(EntryView) -> bool {
    |e: EntryView| from <= e.lsn && e.lsn <= to
}

pub open spec fn above(lsn: Lsn) -> spec_fn(EntryView) -> bool {
    |e: EntryView| e.lsn > lsn
}

pub open spec fn below(lsn: Lsn) -> spec_fn(EntryView) -> bool {
    |e: EntryView| e.lsn < lsn
}

pub open spec fn pending_pred(applied: Lsn, commit: Lsn) -> spec_fn(EntryView) -> bool {
    |e: EntryView| e.lsn > applied && e.lsn <= commit
}

/// Replicated log with commit and apply indexes.
pub struct ReplicatedLog {
    entries: Vec<LogEntry>,
    commit_index: Lsn,
    last_applied: Lsn,
    max_entries: usize,
}

impl View for ReplicatedLog {
    type V = LogView;

    closed spec fn view(&self) -> LogView {
        LogView {
            entries: entry_views(self.entries@),
            commit_index: self.commit_index,
            last_applied: self.last_applied,
            max_entries: self.max_entries,
        }
    }
}

impl ReplicatedLog {
    /// An empty log that holds at most `max_entries` entries.
    pub fn new(max_entries: usize) -> (r: Self)
        ensures
            r@.entries.len() == 0,
            r@.commit_index == 0,
            r@.last_applied == 0,
            r@.max_entries == max_entries,
    {
        ReplicatedLog { entries: Vec::new(), commit_index: 0, last_applied: 0, max_entries }
    }

    /// Append an entry at the end, unless the log is full; returns the entry's LSN.
    pub fn append(&mut self, entry: LogEntry) -> (r: Result<Lsn, LogError>)
        ensures
            old(self)@.entries.len() >= old(self)@.max_entries ==> r == Err::<Lsn, LogError>(LogError::Full)
                && final(self)@ == old(self)@,
            old(self)@.entries.len() < old(self)@.max_entries ==> r == Ok::<Lsn, LogError>(entry.lsn)
                && final(self)@ == (LogView { entries: old(self)@.entries.push(entry@), ..old(self)@ }),
    {
        if self.entries.len() >= self.max_entries {
            return Err(LogError::Full);
        }
        let lsn = entry.lsn;
        self.entries.push(entry);
        assert(entry_views(self.entries@) =~= entry_views(old(self).entries@).push(entry@));
        Ok(lsn)
    }

    fn find_index(&self, lsn: Lsn) -> (r: Option<usize>)
        ensures
            match r {
                Some(i) => first_with_lsn(self@.entries, lsn, i as int),
                None => !has_lsn(self@.entries, lsn),
            },
    {
        let mut i: usize = 0;
        while i < self.entries.len()
            invariant
                i <= self.entries.len(),
                forall|j: int| 0 <= j < i ==> (#[trigger] self@.entries[j]).lsn != lsn,
            decreases self.entries.len() - i,
        {
            if self.entries[i].lsn == lsn {
                assert(self@.entries[i as int].lsn == lsn);
                return Some(i);
            }
            assert(self@.entries[i as int].lsn != lsn);
            i = i + 1;
        }
        None
    }

    /// The first entry that carries `lsn`.
    pub fn get(&self, lsn: Lsn) -> (r: Option<LogEntry>)
        ensures
            match r {
                Some(e) => lookup(self@.entries, lsn) == Some(e@),
                None => lookup(self@.entries, lsn) is None,
            },
    {
        match self.find_index(lsn) {
            Some(i) => {
                proof {
                    let c = choose|k: int| first_with_lsn(self@.entries, lsn, k);
                    lemma_first_with_lsn_unique(self@.entries, lsn, i as int, c);
                }
                Some(self.entries[i].duplicate())
            },
            None => None,
        }
    }

    /// Whether some entry carries `lsn`.
    pub fn contains_lsn(&self, lsn: Lsn) -> (r: bool)
        ensures
            r == has_lsn(self@.entries, lsn),
    {
        self.find_index(lsn).is_some()
    }

    fn collect(&self, pred: Ghost<spec_fn(EntryView) -> bool>, lo: Lsn, hi: Lsn, lo_strict: bool) -> (r: Vec<LogEntry>)
        requires
            forall|e: EntryView| #[trigger] pred@(e) == ((if lo_strict { e.lsn > lo } else { e.lsn >= lo }) && e.lsn <= hi),
        ensures
            entry_views(r@) == self@.entries.filter(pred@),
    {
        let ghost es = self@.entries;
        let mut out: Vec<LogEntry> = Vec::new();
        let mut i: usize = 0;
        while i < self.entries.len()
            invariant
                i <= self.entries.len(),
                es == self@.entries,
                forall|e: EntryView| #[trigger] pred@(e) == ((if lo_strict { e.lsn > lo } else { e.lsn >= lo }) && e.lsn <= hi),
                entry_views(out@) == es.take(i as int).filter(pred@),
            decreases self.entries.len() - i,
        {
            let ghost before = entry_views(out@);
            assert(es.take(i as int + 1) == es.take(i as int).push(es[i as int]));
            proof {
                es.take(i as int).lemma_filter_push(es[i as int], pred@);
            }
            let e = &self.entries[i];
            let keep = (if lo_strict { e.lsn > lo } else { e.lsn >= lo }) && e.lsn <= hi;
            assert(keep == pred@(es[i as int]));
            if keep {
                out.push(e.duplicate());
                assert(entry_views(out@) =~= before.push(es[i as int]));
            }
            i = i + 1;
        }
        assert(es.take(self.entries.len() as int) == es);
        out
    }

    /// Entries whose LSN lies in `from_lsn..=to_lsn`, in log order.
    pub fn get_range(&self, from_lsn: Lsn, to_lsn: Lsn) -> (r: Vec<LogEntry>)
        ensures
            entry_views(r@) == self@.entries.filter(in_range(from_lsn, to_lsn)),
    {
        self.collect(Ghost(in_range(from_lsn, to_lsn)), from_lsn, to_lsn, false)
    }

    /// Move the commit index to `lsn`: it may not go back, and `lsn` must be carried
    /// by an entry or be a position the log holds.
    pub fn commit(&mut self, lsn: Lsn) -> (r: Result<(), LogError>)
        ensures
            lsn < old(self)@.commit_index ==> r == Err::<(), LogError>(LogError::Backwards { requested: lsn, current: old(self)@.commit_index }),
            lsn >= old(self)@.commit_index && !committable(old(self)@.entries, lsn) ==> r == Err::<(), LogError>(LogError::NoEntry { lsn }),
            r is Err ==> final(self)@ == old(self)@,
            lsn >= old(self)@.commit_index && committable(old(self)@.entries, lsn) ==> r is Ok
                && final(self)@ == (LogView { commit_index: lsn, ..old(self)@ }),
    {
        let current = self.commit_index;
        if lsn < current {
            return Err(LogError::Backwards { requested: lsn, current });
        }
        let held = 1 <= lsn && (lsn as u128) <= (self.entries.len() as u128);
        if !held && !self.contains_lsn(lsn) {
            return Err(LogError::NoEntry { lsn });
        }
        self.commit_index = lsn;
        Ok(())
    }

    /// Commit index.
    pub fn commit_index(&self) -> (r: Lsn)
        ensures
            r == self@.commit_index,
    {
        self.commit_index
    }

    /// Last applied LSN.
    pub fn last_applied(&self) -> (r: Lsn)
        ensures
            r == self@.last_applied,
    {
        self.last_applied
    }

    /// Move the applied index to `lsn`: it may not go back, and an entry must carry `lsn`.
    pub fn apply(&mut self, lsn: Lsn) -> (r: Result<(), LogError>)
        ensures
            lsn < old(self)@.last_applied ==> r == Err::<(), LogError>(LogError::Backwards { requested: lsn, current: old(self)@.last_applied }),
            lsn >= old(self)@.last_applied && !has_lsn(old(self)@.entries, lsn) ==> r == Err::<(), LogError>(LogError::NoEntry { lsn }),
            r is Err ==> final(self)@ == old(self)@,
            lsn >= old(self)@.last_applied && has_lsn(old(self)@.entries, lsn) ==> r is Ok
                && final(self)@ == (LogView { last_applied: lsn, ..old(self)@ }),
    {
        let current = self.last_applied;
        if lsn < current {
            return Err(LogError::Backwards { requested: lsn, current });
        }
        if !self.contains_lsn(lsn) {
            return Err(LogError::NoEntry { lsn });
        }
        self.last_applied = lsn;
        Ok(())
    }

    /// Entries committed but not applied: LSN above the applied index and up to the
    /// commit index, in log order.
    pub fn pending_entries(&self) -> (r: Vec<LogEntry>)
        ensures
            entry_views(r@) == self@.entries.filter(pending_pred(self@.last_applied, self@.commit_index)),
    {
        self.collect(Ghost(pending_pred(self.last_applied, self.commit_index)), self.last_applied, self.commit_index, true)
    }

    /// Entries above the commit index, in log order.
    pub fn uncommitted_entries(&self) -> (r: Vec<LogEntry>)
        ensures
            entry_views(r@) == self@.entries.filter(above(self@.commit_index)),
    {
        self.collect(Ghost(above(self.commit_index)), self.commit_index, u64::MAX, true)
    }

    /// Number of entries.
    pub fn len(&self) -> (r: usize)
        ensures
            r == self@.entries.len(),
    {
        self.entries.len()
    }

    /// LSN of the last entry.
    pub fn last_lsn(&self) -> (r: Option<Lsn>)
        ensures
            self@.entries.len() == 0 ==> r is None,
            self@.entries.len() > 0 ==> r == Some(self@.entries.last().lsn),
    {
        if self.entries.len() == 0 {
            None
        } else {
            Some(self.entries[self.entries.len() - 1].lsn)
        }
    }

    /// Drop every entry and reset both indexes.
    pub fn clear(&mut self)
        ensures
            final(self)@ == (LogView { entries: Seq::empty(), commit_index: 0, last_applied: 0, ..old(self)@ }),
    {
        self.entries = Vec::new();
        self.commit_index = 0;
        self.last_applied = 0;
        assert(entry_views(self.entries@) =~= Seq::<EntryView>::empty());
    }

    /// Keep only the entries below `lsn`; a commit index at or above `lsn` moves to
    /// `lsn - 1` (0 when `lsn` is 0).
    pub fn truncate_from(&mut self, lsn: Lsn) -> (r: Result<(), LogError>)
        ensures
            r is Ok,
            final(self)@ == (LogView {
                entries: old(self)@.entries.filter(below(lsn)),
                commit_index: if old(self)@.commit_index >= lsn {
                    if lsn == 0 { 0 } else { (lsn - 1) as u64 }
                } else {
                    old(self)@.commit_index
                },
                ..old(self)@
            }),
    {
        let ghost es = self@.entries;
        let mut kept: Vec<LogEntry> = Vec::new();
        let mut old_entries: Vec<LogEntry> = Vec::new();
        std::mem::swap(&mut old_entries, &mut self.entries);
        assert(entry_views(old_entries@) == es);
        let mut i: usize = 0;
        while i < old_entries.len()
            invariant
                i <= old_entries.len(),
                entry_views(old_entries@) == es,
                entry_views(kept@) == es.take(i as int).filter(below(lsn)),
            decreases old_entries.len() - i,
        {
            let ghost before = entry_views(kept@);
            assert(es.take(i as int + 1) == es.take(i as int).push(es[i as int]));
            proof {
                es.take(i as int).lemma_filter_push(es[i as int], below(lsn));
            }
            if old_entries[i].lsn < lsn {
                kept.push(old_entries[i].duplicate());
                assert(entry_views(kept@) =~= before.push(es[i as int]));
            }
            i = i + 1;
        }
        assert(es.take(old_entries.len() as int) == es);
        self.entries = kept;
        if self.commit_index >= lsn {
            self.commit_index = lsn.saturating_sub(1);
        }
        Ok(())
    }
}

} // verus!
