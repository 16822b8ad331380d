use vstd::prelude::*;
use crate::replicated_log::{LogEntry, LogOperation, OpView};
use crate::consensus::unix_time_ms;

verus! {

/// Outcome of applying one log entry.
#[derive(Clone, Debug, PartialEq)]
pub enum OperationResult {
    Success,
    AlreadyApplied,
    Failed(String),
}

/// An allocation recorded by the state machine.
#[derive(Clone, Debug)]
pub struct AllocationRecord {
    pub request_id: String,
    pub num_blocks: usize,
    pub applied_at: u64,
}

/// A peer registered by the state machine.
#[derive(Clone, Debug)]
pub struct PeerRecord {
    pub peer_id: String,
    pub peer_addr: String,
    pub capacity: usize,
    pub registered_at: u64,
}

pub struct AllocView {
    pub request_id: Seq<char>,
    pub num_blocks: usize,
    pub applied_at: u64,
}

pub struct PeerView {
    pub peer_id: Seq<char>,
    pub peer_addr: Seq<char>,
    pub capacity: usize,
    pub registered_at: u64,
}

impl View for AllocationRecord {
    type V = AllocView;

    open spec fn view(&self) -> AllocView {
        AllocView { request_id: self.request_id@, num_blocks: self.num_blocks, applied_at: self.applied_at }
    }
}

impl View for PeerRecord {
    type V = PeerView;

    open spec fn view(&self) -> PeerView {
        PeerView {
            peer_id: self.peer_id@,
            peer_addr: self.peer_addr@,
            capacity: self.capacity,
            registered_at: self.registered_at,
        }
    }
}

impl AllocationRecord {
    /// A copy of this record.
    pub fn duplicate(&self) -> (r: Self)
        ensures
            r@ == self@,
    {
        AllocationRecord { request_id: self.request_id.clone(), num_blocks: self.num_blocks, applied_at: self.applied_at }
    }
}

impl PeerRecord {
    /// A copy of this record.
    pub fn duplicate(&self) -> (r: Self)
        ensures
            r@ == self@,
    {
        PeerRecord {
            peer_id: self.peer_id.clone(),
            peer_addr: self.peer_addr.clone(),
            capacity: self.capacity,
            registered_at: self.registered_at,
        }
    }
}

pub open spec fn alloc_views(s: Seq<AllocationRecord>) -> Seq<AllocView> {
    s.map_values(|a: AllocationRecord| a@)
}

pub open spec fn peer_views(s: Seq<PeerRecord>) -> Seq<PeerView> {
    s.map_values(|p: PeerRecord| p@)
}

pub open spec fn alloc_ids(s: Seq<AllocView>) -> Seq<Seq<char>> {
    s.map_values(|a: AllocView| a.request_id)
}

pub open spec fn peer_ids(s: Seq<PeerView>) -> Seq<Seq<char>> {
    s.map_values(|p: PeerView| p.peer_id)
}

/// Abstract state machine.
pub struct SmView {
    pub allocations: Seq<AllocView>,
    pub peers: Seq<PeerView>,
    pub applied_count: u64,
}

/// What the state hash covers: allocations and peers without their timestamps, and
/// the applied count.
pub struct SmContent {
    pub allocs: Seq<(Seq<char>, usize)>,
    pub peers: Seq<(Seq<char>, Seq<char>, usize)>,
    pub applied_count: u64,
}

pub open spec fn content_of(v: SmView) -> SmContent {
    SmContent {
        allocs: v.allocations.map_values(|a: AllocView| (a.request_id, a.num_blocks)),
        peers: v.peers.map_values(|p: PeerView| (p.peer_id, p.peer_addr, p.capacity)),
        applied_count: v.applied_count,
    }
}

/// Effect of one operation on the state machine, as (new state, result); `t` is the
/// time stamped on a new record.
pub open spec fn apply_op(v: SmView, op: OpView, t: u64) -> (SmView, OperationResult) {
    match op {
        OpView::Allocate { request_id, num_blocks } => {
            if alloc_ids(v.allocations).contains(request_id) {
                (v, OperationResult::AlreadyApplied)
            } else {
                (SmView {
                    allocations: v.allocations.push(AllocView { request_id, num_blocks, applied_at: t }),
                    applied_count: (v.applied_count + 1) as u64,
                    ..v
                }, OperationResult::Success)
            }
        },
        OpView::Deallocate { request_id, blocks } => {
            if alloc_ids(v.allocations).contains(request_id) {
                (SmView {
                    allocations: v.allocations.remove(alloc_ids(v.allocations).index_of(request_id)),
                    applied_count: (v.applied_count + 1) as u64,
                    ..v
                }, OperationResult::Success)
            } else {
                (v, OperationResult::AlreadyApplied)
            }
        },
        OpView::RegisterPeer { peer_id, peer_addr, capacity } => {
            if peer_ids(v.peers).contains(peer_id) {
                (v, OperationResult::AlreadyApplied)
            } else {
                (SmView {
                    peers: v.peers.push(PeerView { peer_id, peer_addr, capacity, registered_at: t }),
                    applied_count: (v.applied_count + 1) as u64,
                    ..v
                }, OperationResult::Success)
            }
        },
    }
}

/// Whether `op` changes the state machine (and so counts as applied).
pub open spec fn op_succeeds(v: SmView, op: OpView) -> bool {
    apply_op(v, op, 0).1 == OperationResult::Success
}

/// Little-endian bytes of `x`, `n` of them.
pub open spec fn le_bytes(x: nat, n: nat) -> Seq<u8>
    decreases n,
{
    if n == 0 {
        Seq::empty()
    } else {
        seq![(x % 256) as u8] + le_bytes(x / 256, (n - 1) as nat)
    }
}

/// Bytes of a machine word on this target.
pub open spec fn word_bytes() -> nat {
    (usize::BITS / 8) as nat
}

pub open spec fn alloc_bytes(s: Seq<(Seq<char>, usize)>) -> Seq<u8>
    decreases s.len(),
{
    if s.len() == 0 {
        Seq::empty()
    } else {
        alloc_bytes(s.drop_last()) + vstd::utf8::encode_utf8(s.last().0) + le_bytes(s.last().1 as nat, word_bytes())
    }
}

pub open spec fn peer_bytes(s: Seq<(Seq<char>, Seq<char>, usize)>) -> Seq<u8>
    decreases s.len(),
{
    if s.len() == 0 {
        Seq::empty()
    } else {
        peer_bytes(s.drop_last()) + vstd::utf8::encode_utf8(s.last().0) + vstd::utf8::encode_utf8(s.last().1)
            + le_bytes(s.last().2 as nat, word_bytes())
    }
}

/// The bytes the state hash is taken over: each allocation's request id and block
/// count, then each peer's id, address and capacity, then the applied count.
pub open spec fn content_bytes(c: SmContent) -> Seq<u8> {
    alloc_bytes(c.allocs) + peer_bytes(c.peers) + le_bytes(c.applied_count as nat, 8)
}

/// BLAKE3 digest of `input`.
pub uninterp spec fn blake3_hash(input: Seq<u8>) -> Seq<u8>;

/// `blake3::hash`: the 32-byte BLAKE3 digest of the input.
#[verifier::external_body]
pub(crate) fn blake3_digest(input: &Vec<u8>) -> (r: [u8; 32])
    ensures
        r@ == blake3_hash(input@),
{
    *blake3::hash(input.as_slice()).as_bytes()
}

/// Append the little-endian bytes of `x`, `n` of them.
pub fn push_le_bytes(out: &mut Vec<u8>, x: u64, n: u32)
    ensures
        final(out)@ == old(out)@ + le_bytes(x as nat, n as nat),
{
    let mut v: u64 = x;
    let mut k: u32 = 0;
    while k < n
        invariant
            k <= n,
            old(out)@ + le_bytes(x as nat, n as nat) == out@ + le_bytes(v as nat, (n - k) as nat),
        decreases n - k,
    {
        let ghost before = out@;
        out.push((v % 256) as u8);
        assert(le_bytes(v as nat, (n - k) as nat) == seq![(v % 256) as u8] + le_bytes((v / 256) as nat, (n - k - 1) as nat));
        assert(out@ + le_bytes((v / 256) as nat, (n - k - 1) as nat) =~= before + le_bytes(v as nat, (n - k) as nat));
        v = v / 256;
        k = k + 1;
    }
    assert(le_bytes(v as nat, 0) =~= Seq::<u8>::empty());
    assert(out@ + Seq::<u8>::empty() =~= out@);
}

/// Append the UTF-8 bytes of `s`.
pub fn push_str_bytes(out: &mut Vec<u8>, s: &String)
    ensures
        final(out)@ == old(out)@ + vstd::utf8::encode_utf8(s@),
{
    let b: &[u8] = s.as_str().as_bytes();
    let mut i: usize = 0;
    while i < b.len()
        invariant
            i <= b@.len(),
            b@ == vstd::utf8::encode_utf8(s@),
            out@ == old(out)@ + b@.take(i as int),
        decreases b.len() - i,
    {
        out.push(b[i]);
        assert(b@.take(i as int + 1) == b@.take(i as int).push(b@[i as int]));
        i = i + 1;
    }
    assert(b@.take(b@.len() as int) == b@);
}

/// `String::push`: appends one character at the end.
pub assume_specification[ String::push ](s: &mut String, ch: char)
    ensures
        final(s)@ == old(s)@.push(ch),
;

/// Lowercase hexadecimal digit of a nibble.
pub open spec fn hex_digit(n: u8) -> char {
    if n < 10 {
        (('0' as u8) + n) as char
    } else {
        (('a' as u8) + n - 10) as char
    }
}

/// Lowercase hexadecimal text of `b`, two digits a byte.
pub open spec fn hex_of(b: Seq<u8>) -> Seq<char>
    decreases b.len(),
{
    if b.len() == 0 {
        Seq::empty()
    } else {
        hex_of(b.drop_last()) + seq![hex_digit(b.last() / 16), hex_digit(b.last() % 16)]
    }
}

fn hex_char(n: u8) -> (c: char)
    requires
        n < 16,
    ensures
        c == hex_digit(n),
{
    if n < 10 {
        ((48u8 + n) as char)
    } else {
        ((97u8 + n - 10) as char)
    }
}

/// Lowercase hexadecimal text of a digest.
pub fn to_hex(b: &[u8; 32]) -> (r: String)
    ensures
        r@ == hex_of(b@),
{
    let mut out = String::new();
    let mut i: usize = 0;
    while i < 32
        invariant
            i <= 32,
            b@.len() == 32,
            out@ == hex_of(b@.take(i as int)),
        decreases 32 - i,
    {
        let x = b[i];
        let hi = hex_char(x / 16);
        let lo = hex_char(x % 16);
        let ghost before = out@;
        out.push(hi);
        out.push(lo);
        assert(b@.take(i as int + 1).drop_last() == b@.take(i as int));
        assert(out@ =~= hex_of(b@.take(i as int + 1)));
        i = i + 1;
    }
    assert(b@.take(32) == b@);
    out
}

/// State machine for replicated operations.
pub struct StateMachine {
    allocations: Vec<AllocationRecord>,
    peers: Vec<PeerRecord>,
    applied_count: u64,
}

impl View for StateMachine {
    type V = SmView;

    closed spec fn view(&self) -> SmView {
        SmView {
            allocations: alloc_views(self.allocations@),
            peers: peer_views(self.peers@),
            applied_count: self.applied_count,
        }
    }
}

/// Request ids, and peer ids, are held once each.
pub open spec fn sm_wf(v: SmView) -> bool {
    &&& alloc_ids(v.allocations).no_duplicates()
    &&& peer_ids(v.peers).no_duplicates()
}

impl StateMachine {
    /// An empty state machine.
    pub fn new() -> (r: Self)
        ensures
            r@.allocations.len() == 0,
            r@.peers.len() == 0,
            r@.applied_count == 0,
            sm_wf(r@),
    {
        let r = StateMachine { allocations: Vec::new(), peers: Vec::new(), applied_count: 0 };
        assert(alloc_ids(r@.allocations) =~= Seq::<Seq<char>>::empty());
        assert(peer_ids(r@.peers) =~= Seq::<Seq<char>>::empty());
        r
    }

    fn find_alloc(&self, id: &String) -> (r: Option<usize>)
        ensures
            match r {
                Some(i) => i < self@.allocations.len() && self@.allocations[i as int].request_id == id@
                    && forall|j: int| 0 <= j < i ==> (#[trigger] self@.allocations[j]).request_id != id@,
                None => !alloc_ids(self@.allocations).contains(id@),
            },
    {
        let mut i: usize = 0;
        while i < self.allocations.len()
            invariant
                i <= self.allocations.len(),
                forall|j: int| 0 <= j < i ==> (#[trigger] self@.allocations[j]).request_id != id@,
            decreases self.allocations.len() - i,
        {
            if self.allocations[i].request_id == *id {
                return Some(i);
            }
            assert(self@.allocations[i as int].request_id != id@);
            i = i + 1;
        }
        assert forall|j: int| 0 <= j < alloc_ids(self@.allocations).len() implies alloc_ids(self@.allocations)[j] != id@ by {
            assert(self@.allocations[j].request_id != id@);
        }
        None
    }

    fn find_peer(&self, id: &String) -> (r: Option<usize>)
        ensures
            match r {
                Some(i) => i < self@.peers.len() && self@.peers[i as int].peer_id == id@
                    && forall|j: int| 0 <= j < i ==> (#[trigger] self@.peers[j]).peer_id != id@,
                None => !peer_ids(self@.peers).contains(id@),
            },
    {
        let mut i: usize = 0;
        while i < self.peers.len()
            invariant
                i <= self.peers.len(),
                forall|j: int| 0 <= j < i ==> (#[trigger] self@.peers[j]).peer_id != id@,
            decreases self.peers.len() - i,
        {
            if self.peers[i].peer_id == *id {
                return Some(i);
            }
            assert(self@.peers[i as int].peer_id != id@);
            i = i + 1;
        }
        assert forall|j: int| 0 <= j < peer_ids(self@.peers).len() implies peer_ids(self@.peers)[j] != id@ by {
            assert(self@.peers[j].peer_id != id@);
        }
        None
    }

    /// Apply a log entry: an allocation or a peer registration is recorded unless its
    /// id is already there; a deallocation removes the allocation of its request id.
    /// A change counts as applied; a repeat is reported as already applied.
    pub fn apply_entry(&mut self, entry: &LogEntry) -> (r: Result<OperationResult, String>)
        requires
            sm_wf(old(self)@),
            op_succeeds(old(self)@, entry.operation@) ==> old(self)@.applied_count < u64::MAX,
        ensures
            sm_wf(final(self)@),
            r == Ok::<OperationResult, String>(apply_op(old(self)@, entry.operation@, 0).1),
            exists|t: u64| final(self)@ == apply_op(old(self)@, entry.operation@, t).0,
            content_of(final(self)@) == content_of(apply_op(old(self)@, entry.operation@, 0).0),
    {
        let ghost v = self@;
        match &entry.operation {
            LogOperation::Allocate { request_id, num_blocks } => {
                match self.find_alloc(request_id) {
                    Some(i) => {
                        assert(alloc_ids(v.allocations)[i as int] == request_id@);
                        assert(self@ == apply_op(v, entry.operation@, 0).0);
                        return Ok(OperationResult::AlreadyApplied);
                    },
                    None => {},
                }
                let t = unix_time_ms();
                let rec = AllocationRecord { request_id: request_id.clone(), num_blocks: *num_blocks, applied_at: t };
                self.allocations.push(rec);
                self.applied_count = self.applied_count + 1;
                assert(alloc_views(self.allocations@) =~= v.allocations.push(AllocView {
                    request_id: request_id@, num_blocks: *num_blocks, applied_at: t }));
                assert(alloc_ids(self@.allocations) =~= alloc_ids(v.allocations).push(request_id@));
                assert(self@ == apply_op(v, entry.operation@, t).0);
                assert(content_of(self@).allocs =~= content_of(apply_op(v, entry.operation@, 0).0).allocs);
                Ok(OperationResult::Success)
            },
            LogOperation::Deallocate { request_id, blocks } => {
                match self.find_alloc(request_id) {
                    Some(pos) => {
                        proof {
                            let c = alloc_ids(v.allocations).index_of(request_id@);
                            assert(alloc_ids(v.allocations)[pos as int] == request_id@);
                            assert(alloc_ids(v.allocations).contains(request_id@));
                            assert(alloc_ids(v.allocations)[c] == request_id@);
                            assert(c == pos as int);
                        }
                        self.allocations.remove(pos);
                        self.applied_count = self.applied_count + 1;
                        assert(alloc_views(self.allocations@) =~= v.allocations.remove(pos as int));
                        assert(alloc_ids(self@.allocations) =~= alloc_ids(v.allocations).remove(pos as int));
                        assert(self@ == apply_op(v, entry.operation@, 0).0);
                        Ok(OperationResult::Success)
                    },
                    None => {
                        assert(self@ == apply_op(v, entry.operation@, 0).0);
                        Ok(OperationResult::AlreadyApplied)
                    },
                }
            },
            LogOperation::RegisterPeer { peer_id, peer_addr, capacity } => {
                match self.find_peer(peer_id) {
                    Some(i) => {
                        assert(peer_ids(v.peers)[i as int] == peer_id@);
                        assert(self@ == apply_op(v, entry.operation@, 0).0);
                        return Ok(OperationResult::AlreadyApplied);
                    },
                    None => {},
                }
                let t = unix_time_ms();
                let rec = PeerRecord {
                    peer_id: peer_id.clone(),
                    peer_addr: peer_addr.clone(),
                    capacity: *capacity,
                    registered_at: t,
                };
                self.peers.push(rec);
                self.applied_count = self.applied_count + 1;
                assert(peer_views(self.peers@) =~= v.peers.push(PeerView {
                    peer_id: peer_id@, peer_addr: peer_addr@, capacity: *capacity, registered_at: t }));
                assert(peer_ids(self@.peers) =~= peer_ids(v.peers).push(peer_id@));
                assert(self@ == apply_op(v, entry.operation@, t).0);
                assert(content_of(self@).peers =~= content_of(apply_op(v, entry.operation@, 0).0).peers);
                Ok(OperationResult::Success)
            },
        }
    }

    /// The allocation recorded for `request_id`.
    pub fn get_allocation(&self, request_id: &str) -> (r: Option<AllocationRecord>)
        ensures
            match r {
                Some(a) => exists|i: int| 0 <= i < self@.allocations.len() && self@.allocations[i] == a@
                    && a@.request_id == request_id@
                    && forall|j: int| 0 <= j < i ==> (#[trigger] self@.allocations[j]).request_id != request_id@,
                None => !alloc_ids(self@.allocations).contains(request_id@),
            },
    {
        let id: String = request_id.to_owned();
        match self.find_alloc(&id) {
            Some(i) => Some(self.allocations[i].duplicate()),
            None => None,
        }
    }

    /// All allocations, in the order recorded.
    pub fn allocations(&self) -> (r: Vec<AllocationRecord>)
        ensures
            alloc_views(r@) == self@.allocations,
    {
        let mut out: Vec<AllocationRecord> = Vec::new();
        let mut i: usize = 0;
        while i < self.allocations.len()
            invariant
                i <= self.allocations.len(),
                alloc_views(out@) == self@.allocations.take(i as int),
            decreases self.allocations.len() - i,
        {
            let ghost before = alloc_views(out@);
            let d = self.allocations[i].duplicate();
            assert(d@ == self@.allocations[i as int]);
            out.push(d);
            assert(alloc_views(out@) =~= before.push(self@.allocations[i as int]));
            assert(self@.allocations.take(i as int + 1) =~= self@.allocations.take(i as int).push(self@.allocations[i as int]));
            i = i + 1;
        }
        assert(self@.allocations.take(self.allocations.len() as int) == self@.allocations);
        out
    }

    /// The peer registered as `peer_id`.
    pub fn get_peer(&self, peer_id: &str) -> (r: Option<PeerRecord>)
        ensures
            match r {
                Some(p) => exists|i: int| 0 <= i < self@.peers.len() && self@.peers[i] == p@
                    && p@.peer_id == peer_id@
                    && forall|j: int| 0 <= j < i ==> (#[trigger] self@.peers[j]).peer_id != peer_id@,
                None => !peer_ids(self@.peers).contains(peer_id@),
            },
    {
        let id: String = peer_id.to_owned();
        match self.find_peer(&id) {
            Some(i) => Some(self.peers[i].duplicate()),
            None => None,
        }
    }

    /// All peers, in the order registered.
    pub fn peers(&self) -> (r: Vec<PeerRecord>)
        ensures
            peer_views(r@) == self@.peers,
    {
        let mut out: Vec<PeerRecord> = Vec::new();
        let mut i: usize = 0;
        while i < self.peers.len()
            invariant
                i <= self.peers.len(),
                peer_views(out@) == self@.peers.take(i as int),
            decreases self.peers.len() - i,
        {
            let ghost before = peer_views(out@);
            let d = self.peers[i].duplicate();
            assert(d@ == self@.peers[i as int]);
            out.push(d);
            assert(peer_views(out@) =~= before.push(self@.peers[i as int]));
            assert(self@.peers.take(i as int + 1) =~= self@.peers.take(i as int).push(self@.peers[i as int]));
            i = i + 1;
        }
        assert(self@.peers.take(self.peers.len() as int) == self@.peers);
        out
    }

    /// Number of changes applied.
    pub fn applied_count(&self) -> (r: u64)
        ensures
            r == self@.applied_count,
    {
        self.applied_count
    }

    /// Drop all state.
    pub fn clear(&mut self)
        ensures
            final(self)@.allocations.len() == 0,
            final(self)@.peers.len() == 0,
            final(self)@.applied_count == 0,
            sm_wf(final(self)@),
    {
        self.allocations = Vec::new();
        self.peers = Vec::new();
        self.applied_count = 0;
        assert(alloc_ids(self@.allocations) =~= Seq::<Seq<char>>::empty());
        assert(peer_ids(self@.peers) =~= Seq::<Seq<char>>::empty());
    }

    /// The bytes the state hash is taken over.
    pub fn hash_input(&self) -> (r: Vec<u8>)
        ensures
            r@ == content_bytes(content_of(self@)),
    {
        let ghost c = content_of(self@);
        let mut out: Vec<u8> = Vec::new();
        let mut i: usize = 0;
        while i < self.allocations.len()
            invariant
                i <= self.allocations.len(),
                c == content_of(self@),
                out@ == alloc_bytes(c.allocs.take(i as int)),
            decreases self.allocations.len() - i,
        {
            assert(c.allocs.take(i as int + 1).drop_last() == c.allocs.take(i as int));
            push_str_bytes(&mut out, &self.allocations[i].request_id);
            push_le_bytes(&mut out, self.allocations[i].num_blocks as u64, usize::BITS / 8);
            assert(out@ =~= alloc_bytes(c.allocs.take(i as int + 1)));
            i = i + 1;
        }
        assert(c.allocs.take(self.allocations.len() as int) == c.allocs);
        let ghost head = out@;
        let mut k: usize = 0;
        while k < self.peers.len()
            invariant
                k <= self.peers.len(),
                c == content_of(self@),
                head == alloc_bytes(c.allocs),
                out@ == head + peer_bytes(c.peers.take(k as int)),
            decreases self.peers.len() - k,
        {
            assert(c.peers.take(k as int + 1).drop_last() == c.peers.take(k as int));
            push_str_bytes(&mut out, &self.peers[k].peer_id);
            push_str_bytes(&mut out, &self.peers[k].peer_addr);
            push_le_bytes(&mut out, self.peers[k].capacity as u64, usize::BITS / 8);
            assert(out@ =~= head + peer_bytes(c.peers.take(k as int + 1)));
            k = k + 1;
        }
        assert(c.peers.take(self.peers.len() as int) == c.peers);
        push_le_bytes(&mut out, self.applied_count, 8);
        assert(out@ =~= content_bytes(c));
        out
    }

    /// BLAKE3 digest of the state, for comparing replicas.
    pub fn state_hash(&self) -> (r: [u8; 32])
        ensures
            r@ == blake3_hash(content_bytes(content_of(self@))),
    {
        let bytes = self.hash_input();
        blake3_digest(&bytes)
    }
}

/// Replicas agree: state machines with the same content have the same state hash.
pub proof fn lemma_equal_content_equal_hash(a: SmView, b: SmView)
    requires
        content_of(a) == content_of(b),
    ensures
        blake3_hash(content_bytes(content_of(a))) == blake3_hash(content_bytes(content_of(b))),
{
}

/// Applying an entry is deterministic in what the hash covers: two replicas with the
/// same content that apply the same operation get the same result and the same content.
pub proof fn lemma_apply_deterministic(a: SmView, b: SmView, op: OpView, ta: u64, tb: u64)
    requires
        content_of(a) == content_of(b),
    ensures
        apply_op(a, op, ta).1 == apply_op(b, op, tb).1,
        content_of(apply_op(a, op, ta).0) == content_of(apply_op(b, op, tb).0),
{
    let ca = content_of(a);
    let cb = content_of(b);
    assert(ca.allocs.len() == a.allocations.len() && cb.allocs.len() == b.allocations.len());
    assert forall|i: int| 0 <= i < a.allocations.len() implies #[trigger] alloc_ids(a.allocations)[i] == alloc_ids(b.allocations)[i] by {
        assert(ca.allocs[i] == cb.allocs[i]);
    }
    assert(alloc_ids(a.allocations) =~= alloc_ids(b.allocations));
    assert(ca.peers.len() == a.peers.len() && cb.peers.len() == b.peers.len());
    assert forall|i: int| 0 <= i < a.peers.len() implies #[trigger] peer_ids(a.peers)[i] == peer_ids(b.peers)[i] by {
        assert(ca.peers[i] == cb.peers[i]);
    }
    assert(peer_ids(a.peers) =~= peer_ids(b.peers));
    let (a2, ra) = apply_op(a, op, ta);
    let (b2, rb) = apply_op(b, op, tb);
    match op {
        OpView::Allocate { request_id, num_blocks } => {
            if !alloc_ids(a.allocations).contains(request_id) {
                assert(content_of(a2).allocs =~= ca.allocs.push((request_id, num_blocks)));
                assert(content_of(b2).allocs =~= cb.allocs.push((request_id, num_blocks)));
            }
            assert(content_of(a2).allocs =~= content_of(b2).allocs);
            assert(content_of(a2).peers =~= content_of(b2).peers);
        },
        OpView::Deallocate { request_id, blocks } => {
            if alloc_ids(a.allocations).contains(request_id) {
                let k = alloc_ids(a.allocations).index_of(request_id);
                assert(content_of(a2).allocs =~= ca.allocs.remove(k));
                assert(content_of(b2).allocs =~= cb.allocs.remove(k));
            }
            assert(content_of(a2).allocs =~= content_of(b2).allocs);
            assert(content_of(a2).peers =~= content_of(b2).peers);
        },
        OpView::RegisterPeer { peer_id, peer_addr, capacity } => {
            if !peer_ids(a.peers).contains(peer_id) {
                assert(content_of(a2).peers =~= ca.peers.push((peer_id, peer_addr, capacity)));
                assert(content_of(b2).peers =~= cb.peers.push((peer_id, peer_addr, capacity)));
            }
            assert(content_of(a2).allocs =~= content_of(b2).allocs);
            assert(content_of(a2).peers =~= content_of(b2).peers);
        },
    }
}

/// Applying the same operation twice changes nothing the second time, which reports
/// it as already applied (for a release, in a state that holds each request once, as
/// every state built by applying operations does).
pub proof fn lemma_apply_idempotent(v: SmView, op: OpView, t1: u64, t2: u64)
    requires
        op is Deallocate ==> alloc_ids(v.allocations).no_duplicates(),
    ensures
        apply_op(apply_op(v, op, t1).0, op, t2).1 != OperationResult::Success,
        apply_op(apply_op(v, op, t1).0, op, t2).0 == apply_op(v, op, t1).0,
{
    match op {
        OpView::Allocate { request_id, num_blocks } => {
            let w = apply_op(v, op, t1).0;
            if !alloc_ids(v.allocations).contains(request_id) {
                assert(alloc_ids(w.allocations)[w.allocations.len() - 1] == request_id);
            }
            assert(alloc_ids(w.allocations).contains(request_id));
        },
        OpView::RegisterPeer { peer_id, peer_addr, capacity } => {
            let w = apply_op(v, op, t1).0;
            if !peer_ids(v.peers).contains(peer_id) {
                assert(peer_ids(w.peers)[w.peers.len() - 1] == peer_id);
            }
            assert(peer_ids(w.peers).contains(peer_id));
        },
        OpView::Deallocate { request_id, blocks } => {
            let ids = alloc_ids(v.allocations);
            if ids.contains(request_id) {
                let i = ids.index_of(request_id);
                let w = apply_op(v, op, t1).0;
                assert(alloc_ids(w.allocations) =~= ids.remove(i));
                if alloc_ids(w.allocations).contains(request_id) {
                    let j = alloc_ids(w.allocations).index_of(request_id);
                    if j < i {
                        assert(ids[j] == request_id);
                    } else {
                        assert(ids[j + 1] == request_id);
                    }
                    assert(false);
                }
            }
        },
    }
}

} // verus!
