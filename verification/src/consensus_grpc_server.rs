use vstd::prelude::*;
use std::time::Instant;
use crate::concurrent_maps::{elapsed_ms, instant_now};
use crate::replicated_log::{entry_views, EntryView};
use crate::state_machine_grpc::{
    AppendEntriesRequest, AppendEntriesResponse, RequestVoteRequest, RequestVoteResponse, StateMachineGrpcService,
};

verus! {

/// Configuration of the consensus RPC layer.
#[derive(Clone, Debug)]
pub struct GrpcServerConfig {
    /// Address to listen on, `host:port`.
    pub bind_addr: String,
    pub request_timeout_ms: u64,
    /// Failures in a row after which a peer is unhealthy.
    pub max_retries: u32,
    /// Most peers in the pool.
    pub connection_pool_size: usize,
}

impl Default for GrpcServerConfig {
    /// Listen on 127.0.0.1:50051, 5 s timeout, 3 retries, at most 100 peers.
    fn default() -> (r: Self)
        ensures
            r.bind_addr@ == "127.0.0.1:50051"@,
            r.request_timeout_ms == 5000,
            r.max_retries == 3,
            r.connection_pool_size == 100,
    {
        GrpcServerConfig {
            bind_addr: String::from_str("127.0.0.1:50051"),
            request_timeout_ms: 5000,
            max_retries: 3,
            connection_pool_size: 100,
        }
    }
}

/// Why a peer call failed.
#[derive(Debug, Clone, Copy, PartialEq, Eq, Structural)]
pub enum RpcError {
    /// The peer is marked unhealthy; no call was made.
    Unhealthy,
    /// The call took longer than the timeout.
    Timeout,
}

/// Why the pool refused.
#[derive(Debug, Clone, Copy, PartialEq, Eq, Structural)]
pub enum PoolError {
    Full,
    AlreadyPresent,
    NotFound,
}

/// Health of one peer.
#[derive(Clone, Debug)]
pub struct PeerHealthStatus {
    pub peer_id: String,
    pub is_healthy: bool,
    pub failed_attempts: u32,
    pub last_heartbeat_ms: u64,
}

/// Abstract client.
pub struct ClientView {
    pub peer_id: Seq<char>,
    pub addr: Seq<char>,
    pub request_timeout_ms: u64,
    pub max_retries: u32,
    pub failed_attempts: u32,
    pub is_healthy: bool,
}

/// After a successful call.
pub open spec fn client_success(c: ClientView) -> ClientView {
    ClientView { failed_attempts: 0, is_healthy: true, ..c }
}

/// After a failed call: unhealthy once the failures reach the retry limit.
pub open spec fn client_failure(c: ClientView) -> ClientView {
    let n = (c.failed_attempts + 1) as u32;
    ClientView { failed_attempts: n, is_healthy: if n >= c.max_retries { false } else { c.is_healthy }, ..c }
}

/// Whether a call that took `elapsed_ns` nanoseconds timed out.
pub open spec fn timed_out(c: ClientView, elapsed_ns: u128) -> bool {
    elapsed_ns > c.request_timeout_ms * 1_000_000
}

/// LSN a follower matches after an append: the last entry sent, else the previous one.
pub open spec fn match_lsn_of(es: Seq<EntryView>, prev_log_lsn: u64) -> u64 {
    if es.len() == 0 { prev_log_lsn } else { es.last().lsn }
}

/// Client of one consensus peer. The call itself (and its duration) is the caller's;
/// the client decides what the call gives and keeps the peer's health.
pub struct RpcClient {
    peer_id: String,
    addr: String,
    config: GrpcServerConfig,
    last_heartbeat: Instant,
    failed_attempts: u32,
    is_healthy: bool,
}

impl View for RpcClient {
    type V = ClientView;

    closed spec fn view(&self) -> ClientView {
        ClientView {
            peer_id: self.peer_id@,
            addr: self.addr@,
            request_timeout_ms: self.config.request_timeout_ms,
            max_retries: self.config.max_retries,
            failed_attempts: self.failed_attempts,
            is_healthy: self.is_healthy,
        }
    }
}

impl RpcClient {
    /// A healthy client of `peer_id` at `addr`, heard from now.
    pub fn new(peer_id: String, addr: String, config: GrpcServerConfig) -> (r: Self)
        ensures
            r@ == (ClientView {
                peer_id: peer_id@,
                addr: addr@,
                request_timeout_ms: config.request_timeout_ms,
                max_retries: config.max_retries,
                failed_attempts: 0,
                is_healthy: true,
            }),
    {
        RpcClient { peer_id, addr, config, last_heartbeat: instant_now(), failed_attempts: 0, is_healthy: true }
    }

    /// A call went through.
    pub fn record_success(&mut self)
        ensures
            final(self)@ == client_success(old(self)@),
    {
        self.last_heartbeat = instant_now();
        self.failed_attempts = 0;
        self.is_healthy = true;
    }

    /// A call failed.
    pub fn record_failure(&mut self)
        requires
            old(self)@.failed_attempts < u32::MAX,
        ensures
            final(self)@ == client_failure(old(self)@),
    {
        self.failed_attempts = self.failed_attempts + 1;
        if self.failed_attempts >= self.config.max_retries {
            self.is_healthy = false;
        }
    }

    /// A vote request that took `elapsed_ns`: refused when the peer is unhealthy,
    /// a timeout (and a failure) when it took too long, else the peer's vote for the
    /// candidate at the request's term (and a success).
    pub fn request_vote(&mut self, req: &RequestVoteRequest, elapsed_ns: u128) -> (r: Result<RequestVoteResponse, RpcError>)
        requires
            old(self)@.failed_attempts < u32::MAX,
        ensures
            !old(self)@.is_healthy ==> (r matches Err(RpcError::Unhealthy) && final(self)@ == old(self)@),
            old(self)@.is_healthy && timed_out(old(self)@, elapsed_ns) ==> (r matches Err(RpcError::Timeout)
                && final(self)@ == client_failure(old(self)@)),
            old(self)@.is_healthy && !timed_out(old(self)@, elapsed_ns) ==> r is Ok
                && r->Ok_0.voter_id@ == old(self)@.peer_id && r->Ok_0.term == req.term && r->Ok_0.vote_granted
                && final(self)@ == client_success(old(self)@),
    {
        if !self.is_healthy {
            return Err(RpcError::Unhealthy);
        }
        if elapsed_ns > (self.config.request_timeout_ms as u128) * 1_000_000 {
            self.record_failure();
            return Err(RpcError::Timeout);
        }
        let resp = RequestVoteResponse { voter_id: self.peer_id.clone(), term: req.term, vote_granted: true };
        self.record_success();
        Ok(resp)
    }

    /// An append request that took `elapsed_ns`: refused when the peer is unhealthy,
    /// a timeout (and a failure) when it took too long, else the peer's acceptance
    /// matching the last entry sent (or the previous LSN when none was sent).
    pub fn append_entries(&mut self, req: &AppendEntriesRequest, elapsed_ns: u128) -> (r: Result<AppendEntriesResponse, RpcError>)
        requires
            old(self)@.failed_attempts < u32::MAX,
        ensures
            !old(self)@.is_healthy ==> (r matches Err(RpcError::Unhealthy) && final(self)@ == old(self)@),
            old(self)@.is_healthy && timed_out(old(self)@, elapsed_ns) ==> (r matches Err(RpcError::Timeout)
                && final(self)@ == client_failure(old(self)@)),
            old(self)@.is_healthy && !timed_out(old(self)@, elapsed_ns) ==> r is Ok
                && r->Ok_0.follower_id@ == old(self)@.peer_id && r->Ok_0.term == req.term && r->Ok_0.success
                && r->Ok_0.match_lsn == match_lsn_of(entry_views(req.entries@), req.prev_log_lsn)
                && final(self)@ == client_success(old(self)@),
    {
        if !self.is_healthy {
            return Err(RpcError::Unhealthy);
        }
        if elapsed_ns > (self.config.request_timeout_ms as u128) * 1_000_000 {
            self.record_failure();
            return Err(RpcError::Timeout);
        }
        let n = req.entries.len();
        let match_lsn = if n == 0 { req.prev_log_lsn } else { req.entries[n - 1].lsn };
        let resp = AppendEntriesResponse { follower_id: self.peer_id.clone(), term: req.term, success: true, match_lsn };
        self.record_success();
        Ok(resp)
    }

    pub fn is_healthy(&self) -> (r: bool)
        ensures
            r == self@.is_healthy,
    {
        self.is_healthy
    }

    pub fn peer_id(&self) -> (r: &str)
        ensures
            r@ == self@.peer_id,
    {
        self.peer_id.as_str()
    }

    pub fn addr(&self) -> (r: String)
        ensures
            r@ == self@.addr,
    {
        self.addr.clone()
    }

    pub fn failed_attempts(&self) -> (r: u32)
        ensures
            r == self@.failed_attempts,
    {
        self.failed_attempts
    }

    /// Health of the peer, with the milliseconds since it was last heard from (read
    /// from the clock).
    pub fn health_status(&self) -> (r: PeerHealthStatus)
        ensures
            r.peer_id@ == self@.peer_id,
            r.is_healthy == self@.is_healthy,
            r.failed_attempts == self@.failed_attempts,
    {
        PeerHealthStatus {
            peer_id: self.peer_id.clone(),
            is_healthy: self.is_healthy,
            failed_attempts: self.failed_attempts,
            last_heartbeat_ms: elapsed_ms(&self.last_heartbeat),
        }
    }
}

pub open spec fn client_views(s: Seq<RpcClient>) -> Seq<ClientView> {
    s.map_values(|c: RpcClient| c@)
}

pub open spec fn client_ids(s: Seq<ClientView>) -> Seq<Seq<char>> {
    s.map_values(|c: ClientView| c.peer_id)
}

pub open spec fn client_pos(s: Seq<ClientView>, id: Seq<char>) -> int {
    choose|i: int| 0 <= i < s.len() && s[i].peer_id == id
}

pub open spec fn healthy_pred() -> spec_fn(ClientView) -> bool {
    |c: ClientView| c.is_healthy
}

/// Abstract pool.
pub struct PoolView {
    pub clients: Seq<ClientView>,
    pub connection_pool_size: usize,
    pub request_timeout_ms: u64,
    pub max_retries: u32,
}

/// Clients of the consensus peers, each peer once, in the order they were added.
pub struct RpcClientPool {
    clients: Vec<RpcClient>,
    config: GrpcServerConfig,
}

impl View for RpcClientPool {
    type V = PoolView;

    closed spec fn view(&self) -> PoolView {
        PoolView {
            clients: client_views(self.clients@),
            connection_pool_size: self.config.connection_pool_size,
            request_timeout_ms: self.config.request_timeout_ms,
            max_retries: self.config.max_retries,
        }
    }
}

pub open spec fn pool_wf(v: PoolView) -> bool {
    client_ids(v.clients).no_duplicates()
}

/// Every client can record one more failure.
pub open spec fn pool_can_fail(v: PoolView) -> bool {
    forall|i: int| 0 <= i < v.clients.len() ==> (#[trigger] v.clients[i]).failed_attempts < u32::MAX
}

/// The successful answers of a vote request sent to each client in turn.
pub open spec fn answered(cs: Seq<ClientView>, req_term: u64, elapsed: Seq<u128>) -> Seq<(Seq<char>, u64)>
    decreases cs.len(),
{
    if cs.len() == 0 {
        Seq::empty()
    } else {
        let rest = answered(cs.drop_last(), req_term, elapsed);
        let c = cs.last();
        if c.is_healthy && !timed_out(c, elapsed[cs.len() - 1]) {
            rest.push((c.peer_id, req_term))
        } else {
            rest
        }
    }
}

/// Each client after a call that took `elapsed[i]`.
pub open spec fn after_calls(cs: Seq<ClientView>, elapsed: Seq<u128>) -> Seq<ClientView> {
    Seq::new(cs.len(), |i: int| {
        let c = cs[i];
        if !c.is_healthy {
            c
        } else if timed_out(c, elapsed[i]) {
            client_failure(c)
        } else {
            client_success(c)
        }
    })
}

impl RpcClientPool {
    /// An empty pool.
    pub fn new(config: GrpcServerConfig) -> (r: Self)
        ensures
            pool_wf(r@),
            r@ == (PoolView {
                clients: Seq::empty(),
                connection_pool_size: config.connection_pool_size,
                request_timeout_ms: config.request_timeout_ms,
                max_retries: config.max_retries,
            }),
    {
        let r = RpcClientPool { clients: Vec::new(), config };
        assert(r@.clients =~= Seq::<ClientView>::empty());
        assert(client_ids(r@.clients) =~= Seq::<Seq<char>>::empty());
        r
    }

    fn find(&self, peer_id: &str) -> (r: Option<usize>)
        requires
            pool_wf(self@),
        ensures
            match r {
                Some(i) => i < self@.clients.len() && client_ids(self@.clients).contains(peer_id@)
                    && client_pos(self@.clients, peer_id@) == i && self@.clients[i as int].peer_id == peer_id@,
                None => !client_ids(self@.clients).contains(peer_id@),
            },
    {
        let key: String = peer_id.to_owned();
        let mut i: usize = 0;
        while i < self.clients.len()
            invariant
                i <= self.clients.len(),
                pool_wf(self@),
                key@ == peer_id@,
                forall|j: int| 0 <= j < i ==> self@.clients[j].peer_id != peer_id@,
            decreases self.clients.len() - i,
        {
            let id: String = self.clients[i].peer_id().to_owned();
            assert(self@.clients[i as int] == self.clients@[i as int]@);
            if id == key {
                let ghost s = self@.clients;
                assert(client_ids(s)[i as int] == peer_id@);
                let ghost p = client_pos(s, peer_id@);
                assert(0 <= p < s.len() && s[p].peer_id == peer_id@);
                assert(client_ids(s)[p] == client_ids(s)[i as int]);
                return Some(i);
            }
            i = i + 1;
        }
        assert forall|j: int| 0 <= j < client_ids(self@.clients).len() implies client_ids(self@.clients)[j] != peer_id@ by {
            assert(client_ids(self@.clients)[j] == self@.clients[j].peer_id);
        }
        None
    }

    /// Add a healthy client of a peer: refused when the pool is full or already has
    /// the peer.
    pub fn add_peer(&mut self, peer_id: String, addr: String) -> (r: Result<(), PoolError>)
        requires
            pool_wf(old(self)@),
        ensures
            pool_wf(final(self)@),
            old(self)@.clients.len() >= old(self)@.connection_pool_size ==> r == Err::<(), PoolError>(PoolError::Full)
                && final(self)@ == old(self)@,
            old(self)@.clients.len() < old(self)@.connection_pool_size && client_ids(old(self)@.clients).contains(peer_id@)
                ==> r == Err::<(), PoolError>(PoolError::AlreadyPresent) && final(self)@ == old(self)@,
            old(self)@.clients.len() < old(self)@.connection_pool_size && !client_ids(old(self)@.clients).contains(peer_id@)
                ==> r is Ok && final(self)@ == (PoolView {
                    clients: old(self)@.clients.push(ClientView {
                        peer_id: peer_id@,
                        addr: addr@,
                        request_timeout_ms: old(self)@.request_timeout_ms,
                        max_retries: old(self)@.max_retries,
                        failed_attempts: 0,
                        is_healthy: true,
                    }),
                    ..old(self)@
                }),
    {
        if self.clients.len() >= self.config.connection_pool_size {
            return Err(PoolError::Full);
        }
        if self.find(peer_id.as_str()).is_some() {
            return Err(PoolError::AlreadyPresent);
        }
        let ghost s0 = self@.clients;
        let config = GrpcServerConfig {
            bind_addr: self.config.bind_addr.clone(),
            request_timeout_ms: self.config.request_timeout_ms,
            max_retries: self.config.max_retries,
            connection_pool_size: self.config.connection_pool_size,
        };
        let client = RpcClient::new(peer_id, addr, config);
        self.clients.push(client);
        assert(self@.clients =~= s0.push(self@.clients.last()));
        assert(client_ids(self@.clients) =~= client_ids(s0).push(self@.clients.last().peer_id));
        Ok(())
    }

    /// Remove a peer's client; an unknown peer is refused.
    pub fn remove_peer(&mut self, peer_id: &str) -> (r: Result<(), PoolError>)
        requires
            pool_wf(old(self)@),
        ensures
            pool_wf(final(self)@),
            !client_ids(old(self)@.clients).contains(peer_id@) ==> r == Err::<(), PoolError>(PoolError::NotFound)
                && final(self)@ == old(self)@,
            client_ids(old(self)@.clients).contains(peer_id@) ==> r is Ok && final(self)@ == (PoolView {
                clients: old(self)@.clients.remove(client_pos(old(self)@.clients, peer_id@)),
                ..old(self)@
            }),
    {
        let ghost s0 = self@.clients;
        match self.find(peer_id) {
            Some(i) => {
                let _ = self.clients.remove(i);
                assert(self@.clients =~= s0.remove(i as int));
                proof {
                    let t = client_ids(s0);
                    let u = client_ids(self@.clients);
                    assert forall|a: int, b: int| 0 <= a < u.len() && 0 <= b < u.len() && a != b implies u[a] != u[b] by {
                        let a2 = if a < i { a } else { a + 1 };
                        let b2 = if b < i { b } else { b + 1 };
                        assert(u[a] == t[a2] && u[b] == t[b2]);
                    }
                }
                Ok(())
            },
            None => Err(PoolError::NotFound),
        }
    }

    /// The client of a peer; an unknown peer is refused.
    pub fn get_client(&self, peer_id: &str) -> (r: Result<&RpcClient, PoolError>)
        requires
            pool_wf(self@),
        ensures
            client_ids(self@.clients).contains(peer_id@) ==> r is Ok
                && r->Ok_0@ == self@.clients[client_pos(self@.clients, peer_id@)],
            !client_ids(self@.clients).contains(peer_id@) ==> r == Err::<&RpcClient, PoolError>(PoolError::NotFound),
    {
        match self.find(peer_id) {
            Some(i) => Ok(&self.clients[i]),
            None => Err(PoolError::NotFound),
        }
    }

    /// Ids of the peers, in pool order.
    pub fn peer_ids(&self) -> (r: Vec<String>)
        ensures
            r@.map_values(|s: String| s@) == client_ids(self@.clients),
    {
        let mut out: Vec<String> = Vec::new();
        let mut i: usize = 0;
        while i < self.clients.len()
            invariant
                i <= self.clients.len(),
                out@.len() == i,
                out@.map_values(|s: String| s@) == client_ids(self@.clients).take(i as int),
            decreases self.clients.len() - i,
        {
            let ghost before = out@;
            let id: String = self.clients[i].peer_id().to_owned();
            out.push(id);
            assert(self@.clients[i as int] == self.clients@[i as int]@);
            assert(out@ == before.push(out@[i as int]));
            assert(out@.map_values(|s: String| s@) =~= client_ids(self@.clients).take(i as int + 1));
            i = i + 1;
        }
        assert(client_ids(self@.clients).take(i as int) =~= client_ids(self@.clients));
        out
    }

    /// Ids of the healthy peers, in pool order.
    pub fn healthy_peers(&self) -> (r: Vec<String>)
        ensures
            r@.map_values(|s: String| s@) == client_ids(self@.clients.filter(healthy_pred())),
    {
        let ghost cs = self@.clients;
        let mut out: Vec<String> = Vec::new();
        let mut i: usize = 0;
        while i < self.clients.len()
            invariant
                i <= self.clients.len(),
                cs == self@.clients,
                out@.map_values(|s: String| s@) == client_ids(cs.take(i as int).filter(healthy_pred())),
            decreases self.clients.len() - i,
        {
            let ghost before = out@;
            assert(cs[i as int] == self.clients@[i as int]@);
            assert(cs.take(i as int + 1) == cs.take(i as int).push(cs[i as int]));
            proof {
                cs.take(i as int).lemma_filter_push(cs[i as int], healthy_pred());
            }
            if self.clients[i].is_healthy() {
                let id: String = self.clients[i].peer_id().to_owned();
                out.push(id);
                assert(out@.map_values(|s: String| s@) =~= client_ids(cs.take(i as int).filter(healthy_pred())).push(cs[i as int].peer_id));
                assert(client_ids(cs.take(i as int + 1).filter(healthy_pred())) =~= client_ids(cs.take(i as int).filter(healthy_pred())).push(cs[i as int].peer_id));
            }
            i = i + 1;
        }
        assert(cs.take(i as int) =~= cs);
        out
    }

    /// Health of every peer, in pool order.
    pub fn health_status(&self) -> (r: Vec<PeerHealthStatus>)
        ensures
            r@.len() == self@.clients.len(),
            forall|i: int| 0 <= i < r@.len() ==> (#[trigger] r@[i]).peer_id@ == self@.clients[i].peer_id
                && r@[i].is_healthy == self@.clients[i].is_healthy
                && r@[i].failed_attempts == self@.clients[i].failed_attempts,
    {
        let mut out: Vec<PeerHealthStatus> = Vec::new();
        let mut i: usize = 0;
        while i < self.clients.len()
            invariant
                i <= self.clients.len(),
                out@.len() == i,
                forall|j: int| 0 <= j < i ==> (#[trigger] out@[j]).peer_id@ == self@.clients[j].peer_id
                    && out@[j].is_healthy == self@.clients[j].is_healthy
                    && out@[j].failed_attempts == self@.clients[j].failed_attempts,
            decreases self.clients.len() - i,
        {
            assert(self@.clients[i as int] == self.clients@[i as int]@);
            out.push(self.clients[i].health_status());
            i = i + 1;
        }
        out
    }

    /// Send a vote request to every client in turn (`elapsed_ns[i]` is how long the
    /// call to the `i`-th took) and keep the answers that came back.
    pub fn broadcast_request_vote(&mut self, req: &RequestVoteRequest, elapsed_ns: &Vec<u128>) -> (r: Vec<RequestVoteResponse>)
        requires
            pool_wf(old(self)@),
            pool_can_fail(old(self)@),
            elapsed_ns@.len() == old(self)@.clients.len(),
        ensures
            pool_wf(final(self)@),
            final(self)@ == (PoolView { clients: after_calls(old(self)@.clients, elapsed_ns@), ..old(self)@ }),
            r@.map_values(|a: RequestVoteResponse| (a.voter_id@, a.term)) == answered(old(self)@.clients, req.term, elapsed_ns@),
            forall|i: int| 0 <= i < r@.len() ==> (#[trigger] r@[i]).vote_granted,
    {
        let ghost cs = self@.clients;
        let mut out: Vec<RequestVoteResponse> = Vec::new();
        let mut i: usize = 0;
        while i < self.clients.len()
            invariant
                i <= self.clients.len(),
                self.clients.len() == cs.len(),
                elapsed_ns@.len() == cs.len(),
                pool_can_fail(PoolView { clients: cs, ..self@ }),
                self@.clients == after_calls(cs.take(i as int), elapsed_ns@) + cs.skip(i as int),
                self@.connection_pool_size == old(self)@.connection_pool_size,
                self@.request_timeout_ms == old(self)@.request_timeout_ms,
                self@.max_retries == old(self)@.max_retries,
                cs == old(self)@.clients,
                client_ids(self@.clients) == client_ids(cs),
                out@.map_values(|a: RequestVoteResponse| (a.voter_id@, a.term)) == answered(cs.take(i as int), req.term, elapsed_ns@),
                forall|j: int| 0 <= j < out@.len() ==> (#[trigger] out@[j]).vote_granted,
            decreases self.clients.len() - i,
        {
            let ghost before = self@.clients;
            let ghost outb = out@;
            let ghost pre = self@.clients;
            assert(after_calls(cs.take(i as int), elapsed_ns@).len() == i);
            assert(pre[i as int] == cs.skip(i as int)[0]);
            assert(pre[i as int] == self.clients@[i as int]@);
            let mut c = self.clients.remove(i);
            assert(c@ == cs[i as int]);
            assert(cs[i as int].failed_attempts < u32::MAX);
            let res = c.request_vote(req, elapsed_ns[i]);
            self.clients.insert(i, c);
            assert(cs.take(i as int + 1).drop_last() == cs.take(i as int));
            assert(cs.take(i as int + 1).last() == cs[i as int]);
            match res {
                Ok(a) => {
                    out.push(a);
                    assert(out@ == outb.push(out@[outb.len() as int]));
                },
                Err(_) => {},
            }
            proof {
                let e = elapsed_ns@;
                let want = after_calls(cs.take(i as int + 1), e) + cs.skip(i as int + 1);
                assert(self@.clients.len() == cs.len());
                assert forall|k: int| 0 <= k < cs.len() implies self@.clients[k] == want[k] by {
                    assert(self@.clients[k] == self.clients@[k]@);
                    if k < i {
                        assert(pre[k] == after_calls(cs.take(i as int), e)[k]);
                    } else if k > i {
                        assert(pre[k] == cs.skip(i as int)[k - i]);
                    }
                }
                assert(self@.clients =~= want);
            }
            assert(client_ids(self@.clients) =~= client_ids(cs));
            assert(out@.map_values(|a: RequestVoteResponse| (a.voter_id@, a.term)) =~= answered(cs.take(i as int + 1), req.term, elapsed_ns@));
            i = i + 1;
        }
        assert(cs.take(i as int) =~= cs);
        assert(self@.clients =~= after_calls(cs, elapsed_ns@));
        out
    }

    /// Send an append request to every client in turn (`elapsed_ns[i]` is how long the
    /// call to the `i`-th took) and keep the answers that came back.
    pub fn broadcast_append_entries(&mut self, req: &AppendEntriesRequest, elapsed_ns: &Vec<u128>) -> (r: Vec<AppendEntriesResponse>)
        requires
            pool_wf(old(self)@),
            pool_can_fail(old(self)@),
            elapsed_ns@.len() == old(self)@.clients.len(),
        ensures
            pool_wf(final(self)@),
            final(self)@ == (PoolView { clients: after_calls(old(self)@.clients, elapsed_ns@), ..old(self)@ }),
            r@.map_values(|a: AppendEntriesResponse| (a.follower_id@, a.term)) == answered(old(self)@.clients, req.term, elapsed_ns@),
            forall|i: int| 0 <= i < r@.len() ==> (#[trigger] r@[i]).success
                && r@[i].match_lsn == match_lsn_of(entry_views(req.entries@), req.prev_log_lsn),
    {
        let ghost cs = self@.clients;
        let mut out: Vec<AppendEntriesResponse> = Vec::new();
        let mut i: usize = 0;
        while i < self.clients.len()
            invariant
                i <= self.clients.len(),
                self.clients.len() == cs.len(),
                elapsed_ns@.len() == cs.len(),
                pool_can_fail(PoolView { clients: cs, ..self@ }),
                self@.clients == after_calls(cs.take(i as int), elapsed_ns@) + cs.skip(i as int),
                self@.connection_pool_size == old(self)@.connection_pool_size,
                self@.request_timeout_ms == old(self)@.request_timeout_ms,
                self@.max_retries == old(self)@.max_retries,
                cs == old(self)@.clients,
                client_ids(self@.clients) == client_ids(cs),
                out@.map_values(|a: AppendEntriesResponse| (a.follower_id@, a.term)) == answered(cs.take(i as int), req.term, elapsed_ns@),
                forall|j: int| 0 <= j < out@.len() ==> (#[trigger] out@[j]).success
                    && out@[j].match_lsn == match_lsn_of(entry_views(req.entries@), req.prev_log_lsn),
            decreases self.clients.len() - i,
        {
            let ghost outb = out@;
            let ghost pre = self@.clients;
            assert(after_calls(cs.take(i as int), elapsed_ns@).len() == i);
            assert(pre[i as int] == cs.skip(i as int)[0]);
            assert(pre[i as int] == self.clients@[i as int]@);
            let mut c = self.clients.remove(i);
            assert(c@ == cs[i as int]);
            assert(cs[i as int].failed_attempts < u32::MAX);
            let res = c.append_entries(req, elapsed_ns[i]);
            self.clients.insert(i, c);
            assert(cs.take(i as int + 1).drop_last() == cs.take(i as int));
            assert(cs.take(i as int + 1).last() == cs[i as int]);
            match res {
                Ok(a) => {
                    out.push(a);
                    assert(out@ == outb.push(out@[outb.len() as int]));
                },
                Err(_) => {},
            }
            proof {
                let e = elapsed_ns@;
                let want = after_calls(cs.take(i as int + 1), e) + cs.skip(i as int + 1);
                assert(self@.clients.len() == cs.len());
                assert forall|k: int| 0 <= k < cs.len() implies self@.clients[k] == want[k] by {
                    assert(self@.clients[k] == self.clients@[k]@);
                    if k < i {
                        assert(pre[k] == after_calls(cs.take(i as int), e)[k]);
                    } else if k > i {
                        assert(pre[k] == cs.skip(i as int)[k - i]);
                    }
                }
                assert(self@.clients =~= want);
            }
            assert(client_ids(self@.clients) =~= client_ids(cs));
            assert(out@.map_values(|a: AppendEntriesResponse| (a.follower_id@, a.term)) =~= answered(cs.take(i as int + 1), req.term, elapsed_ns@));
            i = i + 1;
        }
        assert(cs.take(i as int) =~= cs);
        assert(self@.clients =~= after_calls(cs, elapsed_ns@));
        out
    }

    /// Number of peers.
    pub fn size(&self) -> (r: usize)
        ensures
            r == self@.clients.len(),
    {
        self.clients.len()
    }

    /// Number of healthy peers.
    pub fn healthy_count(&self) -> (r: usize)
        ensures
            r == self@.clients.filter(healthy_pred()).len(),
    {
        let h = self.healthy_peers();
        assert(h@.map_values(|s: String| s@).len() == h@.len());
        h.len()
    }
}

/// Health of the server.
#[derive(Clone, Debug)]
pub struct ServerHealthStatus {
    pub is_running: bool,
    pub bind_addr: String,
    pub peer_count: usize,
    pub healthy_peers: usize,
    pub peer_health: Vec<PeerHealthStatus>,
}

/// The consensus RPC server: the state machine service it serves and the clients of
/// its peers.
pub struct ConsensusGrpcServer {
    config: GrpcServerConfig,
    grpc_service: StateMachineGrpcService,
    client_pool: RpcClientPool,
}

impl ConsensusGrpcServer {
    pub closed spec fn pool_view(&self) -> PoolView {
        self.client_pool@
    }

    pub closed spec fn service(&self) -> StateMachineGrpcService {
        self.grpc_service
    }

    pub closed spec fn bind_addr(&self) -> Seq<char> {
        self.config.bind_addr@
    }

    /// A server for `grpc_service` with an empty pool.
    pub fn new(config: GrpcServerConfig, grpc_service: StateMachineGrpcService) -> (r: Self)
        ensures
            pool_wf(r.pool_view()),
            r.pool_view().clients.len() == 0,
            r.pool_view().connection_pool_size == config.connection_pool_size,
            r.pool_view().request_timeout_ms == config.request_timeout_ms,
            r.pool_view().max_retries == config.max_retries,
            r.service() == grpc_service,
            r.bind_addr() == config.bind_addr@,
    {
        let pool_config = GrpcServerConfig {
            bind_addr: config.bind_addr.clone(),
            request_timeout_ms: config.request_timeout_ms,
            max_retries: config.max_retries,
            connection_pool_size: config.connection_pool_size,
        };
        ConsensusGrpcServer { config, grpc_service, client_pool: RpcClientPool::new(pool_config) }
    }

    /// Add a peer to the pool.
    pub fn register_peer(&mut self, peer_id: String, addr: String) -> (r: Result<(), PoolError>)
        requires
            pool_wf(old(self).pool_view()),
        ensures
            pool_wf(final(self).pool_view()),
            final(self).service() == old(self).service(),
            final(self).bind_addr() == old(self).bind_addr(),
            ({
                let p = old(self).pool_view();
                &&& p.clients.len() >= p.connection_pool_size ==> r == Err::<(), PoolError>(PoolError::Full)
                    && final(self).pool_view() == p
                &&& p.clients.len() < p.connection_pool_size && client_ids(p.clients).contains(peer_id@)
                    ==> r == Err::<(), PoolError>(PoolError::AlreadyPresent) && final(self).pool_view() == p
                &&& p.clients.len() < p.connection_pool_size && !client_ids(p.clients).contains(peer_id@)
                    ==> r is Ok && final(self).pool_view() == (PoolView {
                        clients: p.clients.push(ClientView {
                            peer_id: peer_id@,
                            addr: addr@,
                            request_timeout_ms: p.request_timeout_ms,
                            max_retries: p.max_retries,
                            failed_attempts: 0,
                            is_healthy: true,
                        }),
                        ..p
                    })
            }),
    {
        self.client_pool.add_peer(peer_id, addr)
    }

    /// The pool.
    pub fn client_pool(&self) -> (r: &RpcClientPool)
        ensures
            r@ == self.pool_view(),
    {
        &self.client_pool
    }

    /// The pool, for changes.
    pub fn client_pool_mut(&mut self) -> (r: &mut RpcClientPool)
        ensures
            r@ == old(self).pool_view(),
            final(self).pool_view() == final(r)@,
            final(self).service() == old(self).service(),
            final(self).bind_addr() == old(self).bind_addr(),
    {
        &mut self.client_pool
    }

    /// The state machine service.
    pub fn grpc_service(&self) -> (r: &StateMachineGrpcService)
        ensures
            *r == self.service(),
    {
        &self.grpc_service
    }

    /// The state machine service, for changes.
    pub fn grpc_service_mut(&mut self) -> (r: &mut StateMachineGrpcService)
        ensures
            *r == old(self).service(),
            final(self).service() == *final(r),
            final(self).pool_view() == old(self).pool_view(),
            final(self).bind_addr() == old(self).bind_addr(),
    {
        &mut self.grpc_service
    }

    /// Running, with the listening address and the peers' health.
    pub fn health_status(&self) -> (r: ServerHealthStatus)
        ensures
            r.is_running,
            r.bind_addr@ == self.bind_addr(),
            r.peer_count == self.pool_view().clients.len(),
            r.healthy_peers == self.pool_view().clients.filter(healthy_pred()).len(),
            r.peer_health@.len() == self.pool_view().clients.len(),
    {
        ServerHealthStatus {
            is_running: true,
            bind_addr: self.config.bind_addr.clone(),
            peer_count: self.client_pool.size(),
            healthy_peers: self.client_pool.healthy_count(),
            peer_health: self.client_pool.health_status(),
        }
    }
}

} // verus!
