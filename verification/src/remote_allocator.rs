use vstd::prelude::*;
use std::time::Instant;
use crate::concurrent_maps::{elapsed_ms, instant_now};
use crate::distributed_tracing::uuid_v4;
use crate::messages::{
    AllocateRequest, AllocateResponse, DeallocateRequest, DeallocateResponse, HealthResponse,
    StateHashResponse, STATUS_DEGRADED, STATUS_NOT_SERVING, STATUS_SERVING,
};
use crate::state_machine::{blake3_digest, blake3_hash, push_str_bytes};
use crate::text::{has_prefix, push_chars};

verus! {

/// Health of a remote node.
#[derive(Debug, Clone, Copy, PartialEq, Eq, Structural)]
pub enum HealthStatus {
    Healthy,
    Degraded,
    Dead,
    Unknown,
}

impl Default for HealthStatus {
    /// Nothing is known yet.
    fn default() -> (r: Self)
        ensures
            r == HealthStatus::Unknown,
    {
        HealthStatus::Unknown
    }
}

/// Health status for a code of the health reply.
pub open spec fn status_of_code(code: i32) -> HealthStatus {
    if code == STATUS_SERVING {
        HealthStatus::Healthy
    } else if code == STATUS_NOT_SERVING {
        HealthStatus::Dead
    } else if code == STATUS_DEGRADED {
        HealthStatus::Degraded
    } else {
        HealthStatus::Unknown
    }
}

/// Health status for a code of the health reply.
pub fn status_from_code(code: i32) -> (r: HealthStatus)
    ensures
        r == status_of_code(code),
{
    if code == STATUS_SERVING {
        HealthStatus::Healthy
    } else if code == STATUS_NOT_SERVING {
        HealthStatus::Dead
    } else if code == STATUS_DEGRADED {
        HealthStatus::Degraded
    } else {
        HealthStatus::Unknown
    }
}

/// More failures than this in a row mark a node dead.
pub const DEAD_AFTER_FAILURES: u32 = 3;

/// A capacity report older than this is stale.
pub const STALE_AFTER_MS: u64 = 5000;

/// Health after `failures` failed calls in a row.
pub open spec fn health_after_failures(failures: u32) -> HealthStatus {
    if failures > DEAD_AFTER_FAILURES {
        HealthStatus::Dead
    } else if failures > 0 {
        HealthStatus::Degraded
    } else {
        HealthStatus::Healthy
    }
}

/// Whether a capacity report of this age is stale.
pub fn stale_at(age_ms: u64) -> (r: bool)
    ensures
        r == (age_ms > STALE_AFTER_MS),
{
    age_ms > STALE_AFTER_MS
}

/// Capacity a remote node last reported.
#[derive(Debug, Clone)]
pub struct RemoteCapacity {
    pub total_blocks: usize,
    pub free_blocks: usize,
    pub last_updated: Instant,
}

impl RemoteCapacity {
    /// Milliseconds since the report (read from the clock).
    pub fn age_ms(&self) -> u64 {
        elapsed_ms(&self.last_updated)
    }

    /// Whether the report is older than five seconds (read from the clock).
    pub fn is_stale(&self) -> bool {
        stale_at(self.age_ms())
    }
}

/// Why a call to a remote node failed.
#[derive(Debug, Clone)]
pub enum RemoteError {
    /// The known capacity of the node is too small (or unknown).
    InsufficientCapacity,
    /// The node answered and refused, with its reason.
    Rejected { message: String },
    /// The call did not reach the node, or got no answer.
    Transport { message: String },
    /// The node sent a state hash that is not 32 bytes long.
    InvalidHashLength { len: usize },
}

/// Abstract client state.
pub struct RemoteView {
    pub node_id: Seq<char>,
    pub node_addr: Seq<char>,
    pub caller_node_id: Seq<char>,
    pub connected: bool,
    /// Total and free blocks last reported.
    pub capacity: Option<(usize, usize)>,
    pub health: HealthStatus,
    pub has_succeeded: bool,
    pub failure_count: u32,
}

/// Client of one remote node: what is known of it and how its calls went. The calls
/// themselves are made by the caller, who hands in the reply (or `None` when no
/// channel is open, in which case the client answers from what it knows).
pub struct RemoteAllocator {
    node_id: String,
    node_addr: String,
    caller_node_id: String,
    connected: bool,
    known_capacity: Option<RemoteCapacity>,
    health_status: HealthStatus,
    last_success: Option<Instant>,
    failure_count: u32,
}

impl View for RemoteAllocator {
    type V = RemoteView;

    closed spec fn view(&self) -> RemoteView {
        RemoteView {
            node_id: self.node_id@,
            node_addr: self.node_addr@,
            caller_node_id: self.caller_node_id@,
            connected: self.connected,
            capacity: match self.known_capacity {
                Some(c) => Some((c.total_blocks, c.free_blocks)),
                None => None,
            },
            health: self.health_status,
            has_succeeded: self.last_success is Some,
            failure_count: self.failure_count,
        }
    }
}

/// After a successful call.
pub open spec fn after_success(v: RemoteView) -> RemoteView {
    RemoteView { has_succeeded: true, failure_count: 0, health: HealthStatus::Healthy, ..v }
}

/// After a failed call.
pub open spec fn after_failure(v: RemoteView) -> RemoteView {
    let n = (v.failure_count + 1) as u32;
    RemoteView {
        failure_count: n,
        health: if n > DEAD_AFTER_FAILURES { HealthStatus::Dead } else { HealthStatus::Degraded },
        ..v
    }
}

/// After a capacity report.
pub open spec fn with_capacity(v: RemoteView, total: usize, free: usize) -> RemoteView {
    RemoteView { capacity: Some((total, free)), ..v }
}

/// Block ids of a reply, as `usize`.
pub open spec fn reply_blocks(ids: Seq<u64>) -> Seq<usize> {
    ids.map_values(|b: u64| b as usize)
}

/// The state hash answered when no channel is open.
pub open spec fn stub_state_hash() -> Seq<u8> {
    blake3_hash(vstd::utf8::encode_utf8("remote-state"@))
}

/// Blocks an allocation call gives: those of an accepting reply, or, without a
/// channel, `0..num_blocks` when the known capacity has room; else none.
pub open spec fn allocate_blocks(v: RemoteView, num_blocks: usize, rpc: Option<Result<AllocateResponse, String>>) -> Option<Seq<usize>> {
    match rpc {
        Some(Ok(resp)) => if resp.ok { Some(reply_blocks(resp.block_ids@)) } else { None },
        Some(Err(_)) => None,
        None => match v.capacity {
            Some((_, free)) => if free >= num_blocks {
                Some(Seq::new(num_blocks as nat, |i: int| i as usize))
            } else {
                None
            },
            None => None,
        },
    }
}

/// State of the client after an allocation call: an accepting reply records the
/// reported capacity, and the call counts as a success exactly when it gives blocks.
pub open spec fn allocate_effect(v: RemoteView, num_blocks: usize, rpc: Option<Result<AllocateResponse, String>>) -> RemoteView {
    let v1 = match rpc {
        Some(Ok(resp)) => if resp.ok { with_capacity(v, resp.total_blocks as usize, resp.free_blocks as usize) } else { v },
        _ => v,
    };
    if allocate_blocks(v, num_blocks, rpc) is Some { after_success(v1) } else { after_failure(v1) }
}

/// Whether a reply is a failed call.
pub open spec fn call_failed<T>(rpc: Option<Result<T, String>>) -> bool {
    rpc matches Some(Err(_))
}

/// Whether a release counts as a failure: a refusal or a failed call.
pub open spec fn deallocate_refused(rpc: Option<Result<DeallocateResponse, String>>) -> bool {
    match rpc {
        Some(Ok(resp)) => !resp.ok,
        Some(Err(_)) => true,
        None => false,
    }
}

/// The error of a failed allocation call: the reply's reason for a refusal, the
/// call's error when it failed, too little capacity without a channel.
pub open spec fn allocate_error(e: RemoteError, rpc: Option<Result<AllocateResponse, String>>) -> bool {
    match rpc {
        Some(Ok(resp)) => e matches RemoteError::Rejected { message } && message@ == resp.error@,
        Some(Err(status)) => e matches RemoteError::Transport { message } && message@ == status@,
        None => e matches RemoteError::InsufficientCapacity,
    }
}

impl RemoteAllocator {
    /// A client of `node_id` at `node_addr`, calling as "local", not connected,
    /// knowing nothing of the node.
    pub fn new(node_id: String, node_addr: String) -> (r: Self)
        ensures
            r@ == (RemoteView {
                node_id: node_id@,
                node_addr: node_addr@,
                caller_node_id: "local"@,
                connected: false,
                capacity: None,
                health: HealthStatus::Unknown,
                has_succeeded: false,
                failure_count: 0,
            }),
    {
        RemoteAllocator {
            node_id,
            node_addr,
            caller_node_id: String::from_str("local"),
            connected: false,
            known_capacity: None,
            health_status: HealthStatus::Unknown,
            last_success: None,
            failure_count: 0,
        }
    }

    /// The same client, calling as `caller_node_id`.
    pub fn with_caller_id(self, caller_node_id: &str) -> (r: Self)
        ensures
            r@ == (RemoteView { caller_node_id: caller_node_id@, ..self@ }),
    {
        let mut s = self;
        s.caller_node_id = caller_node_id.to_owned();
        s
    }

    /// The URL to connect to: the address as given when it names its scheme, else
    /// with `http://` in front.
    pub fn endpoint_url(&self) -> (r: String)
        ensures
            ({
                let a = self@.node_addr;
                let named = (a.len() >= 7 && a.take(7) == "http://"@) || (a.len() >= 8 && a.take(8) == "https://"@);
                &&& named ==> r@ == a
                &&& !named ==> r@ == "http://"@ + a
            }),
    {
        proof {
            reveal_strlit("http://");
            reveal_strlit("https://");
        }
        let addr = self.node_addr.as_str();
        if has_prefix(addr, "http://") || has_prefix(addr, "https://") {
            self.node_addr.clone()
        } else {
            let mut url = String::new();
            push_chars(&mut url, "http://");
            push_chars(&mut url, addr);
            assert(url@ =~= "http://"@ + self@.node_addr);
            url
        }
    }

    /// A channel is now open: calls go to the node.
    pub fn mark_connected(&mut self)
        ensures
            final(self)@ == after_success(RemoteView { connected: true, ..old(self)@ }),
    {
        self.connected = true;
        self.record_success();
    }

    /// Drop the channel.
    pub fn disconnect(&mut self)
        ensures
            final(self)@ == (RemoteView { connected: false, ..old(self)@ }),
    {
        self.connected = false;
    }

    /// A call succeeded.
    pub fn record_success(&mut self)
        ensures
            final(self)@ == after_success(old(self)@),
    {
        self.last_success = Some(instant_now());
        self.failure_count = 0;
        self.health_status = HealthStatus::Healthy;
    }

    /// A call failed: after more than three failures in a row the node is dead,
    /// before that degraded.
    pub fn record_failure(&mut self)
        requires
            old(self)@.failure_count < u32::MAX,
        ensures
            final(self)@ == after_failure(old(self)@),
    {
        self.failure_count = self.failure_count + 1;
        if self.failure_count > DEAD_AFTER_FAILURES {
            self.health_status = HealthStatus::Dead;
        } else {
            self.health_status = HealthStatus::Degraded;
        }
    }

    /// Remember a capacity report, stamped now.
    pub fn update_capacity(&mut self, total: usize, free: usize)
        ensures
            final(self)@ == with_capacity(old(self)@, total, free),
    {
        self.known_capacity = Some(RemoteCapacity { total_blocks: total, free_blocks: free, last_updated: instant_now() });
    }

    /// The request for `num_blocks` blocks (the count is sent as 32 bits), under a
    /// fresh request id.
    pub fn allocate_request(&self, num_blocks: usize) -> (r: AllocateRequest)
        ensures
            r.request_id@.len() == 36,
            r.num_blocks == num_blocks as u32,
            r.caller_node_id@ == self@.caller_node_id,
    {
        AllocateRequest {
            request_id: uuid_v4(),
            num_blocks: #[verifier::truncate] (num_blocks as u32),
            caller_node_id: self.caller_node_id.clone(),
        }
    }

    /// Allocate `num_blocks` blocks on the node. With a reply: a refusal or a failed
    /// call is a failure; an acceptance records the reported capacity and gives the
    /// reply's blocks. Without a channel (`None`): granted, as blocks `0..num_blocks`,
    /// when the known capacity has enough free blocks, else a failure.
    pub fn allocate(&mut self, num_blocks: usize, rpc: Option<Result<AllocateResponse, String>>) -> (r: Result<Vec<usize>, RemoteError>)
        requires
            allocate_blocks(old(self)@, num_blocks, rpc) is None ==> old(self)@.failure_count < u32::MAX,
        ensures
            final(self)@ == allocate_effect(old(self)@, num_blocks, rpc),
            match allocate_blocks(old(self)@, num_blocks, rpc) {
                Some(ids) => r is Ok && r->Ok_0@ == ids,
                None => r is Err && allocate_error(r->Err_0, rpc),
            },
    {
        match rpc {
            Some(Ok(resp)) => {
                if !resp.ok {
                    self.record_failure();
                    return Err(RemoteError::Rejected { message: resp.error });
                }
                self.update_capacity(resp.total_blocks as usize, resp.free_blocks as usize);
                self.record_success();
                let mut out: Vec<usize> = Vec::new();
                let mut i: usize = 0;
                while i < resp.block_ids.len()
                    invariant
                        i <= resp.block_ids.len(),
                        out@ == reply_blocks(resp.block_ids@.take(i as int)),
                    decreases resp.block_ids.len() - i,
                {
                    out.push(#[verifier::truncate] (resp.block_ids[i] as usize));
                    assert(reply_blocks(resp.block_ids@.take(i as int + 1)) =~= reply_blocks(resp.block_ids@.take(i as int)).push(resp.block_ids@[i as int] as usize));
                    i = i + 1;
                }
                assert(resp.block_ids@.take(i as int) =~= resp.block_ids@);
                Ok(out)
            },
            Some(Err(status)) => {
                self.record_failure();
                Err(RemoteError::Transport { message: status })
            },
            None => {
                let room = match &self.known_capacity {
                    Some(cap) => cap.free_blocks >= num_blocks,
                    None => false,
                };
                if room {
                    self.record_success();
                    let mut out: Vec<usize> = Vec::new();
                    let mut i: usize = 0;
                    while i < num_blocks
                        invariant
                            i <= num_blocks,
                            out@ == Seq::new(i as nat, |j: int| j as usize),
                        decreases num_blocks - i,
                    {
                        out.push(i);
                        assert(out@ =~= Seq::new(i as nat + 1, |j: int| j as usize));
                        i = i + 1;
                    }
                    Ok(out)
                } else {
                    self.record_failure();
                    Err(RemoteError::InsufficientCapacity)
                }
            },
        }
    }

    /// Whether an allocation call of `num_blocks` with this reply gives blocks.
    pub fn grants_allocation(&self, num_blocks: usize, rpc: &Option<Result<AllocateResponse, String>>) -> (r: bool)
        ensures
            r == allocate_blocks(self@, num_blocks, *rpc) is Some,
    {
        match rpc {
            Some(Ok(resp)) => resp.ok,
            Some(Err(_)) => false,
            None => match &self.known_capacity {
                Some(cap) => cap.free_blocks >= num_blocks,
                None => false,
            },
        }
    }

    /// The request to release `blocks` (sent as 64-bit ids).
    pub fn deallocate_request(&self, blocks: &Vec<usize>) -> (r: DeallocateRequest)
        ensures
            r.block_ids@ == blocks@.map_values(|b: usize| b as u64),
            r.caller_node_id@ == self@.caller_node_id,
    {
        let mut ids: Vec<u64> = Vec::new();
        let mut i: usize = 0;
        while i < blocks.len()
            invariant
                i <= blocks.len(),
                ids@ == blocks@.take(i as int).map_values(|b: usize| b as u64),
            decreases blocks.len() - i,
        {
            ids.push(blocks[i] as u64);
            assert(blocks@.take(i as int + 1).map_values(|b: usize| b as u64) =~= blocks@.take(i as int).map_values(|b: usize| b as u64).push(blocks@[i as int] as u64));
            i = i + 1;
        }
        assert(blocks@.take(i as int) =~= blocks@);
        DeallocateRequest { block_ids: ids, caller_node_id: self.caller_node_id.clone() }
    }

    /// Release blocks on the node. With a reply: a refusal or a failed call is a
    /// failure, an acceptance a success. Without a channel: a success.
    pub fn deallocate(&mut self, blocks: Vec<usize>, rpc: Option<Result<DeallocateResponse, String>>) -> (r: Result<(), RemoteError>)
        requires
            deallocate_refused(rpc) ==> old(self)@.failure_count < u32::MAX,
        ensures
            match rpc {
                Some(Ok(resp)) => if resp.ok {
                    r is Ok && final(self)@ == after_success(old(self)@)
                } else {
                    &&& r matches Err(RemoteError::Rejected { message }) && message@ == resp.error@
                    &&& final(self)@ == after_failure(old(self)@)
                },
                Some(Err(status)) => {
                    &&& r matches Err(RemoteError::Transport { message }) && message@ == status@
                    &&& final(self)@ == after_failure(old(self)@)
                },
                None => r is Ok && final(self)@ == after_success(old(self)@),
            },
    {
        match rpc {
            Some(Ok(resp)) => {
                if !resp.ok {
                    self.record_failure();
                    return Err(RemoteError::Rejected { message: resp.error });
                }
                self.record_success();
                Ok(())
            },
            Some(Err(status)) => {
                self.record_failure();
                Err(RemoteError::Transport { message: status })
            },
            None => {
                self.record_success();
                Ok(())
            },
        }
    }

    /// Check the node's health. With a reply: its status is returned, the reported
    /// capacity recorded, and the call counts as a success (which leaves the node
    /// healthy); a failed call is a failure. Without a channel: the status follows
    /// from the failures in a row so far, and is recorded.
    pub fn health_check(&mut self, rpc: Option<Result<HealthResponse, String>>) -> (r: Result<HealthStatus, RemoteError>)
        requires
            call_failed(rpc) ==> old(self)@.failure_count < u32::MAX,
        ensures
            match rpc {
                Some(Ok(resp)) => {
                    &&& r == Ok::<HealthStatus, RemoteError>(status_of_code(resp.status))
                    &&& final(self)@ == after_success(with_capacity(old(self)@, resp.total_blocks as usize, resp.free_blocks as usize))
                },
                Some(Err(status)) => {
                    &&& r matches Err(RemoteError::Transport { message }) && message@ == status@
                    &&& final(self)@ == after_failure(old(self)@)
                },
                None => {
                    &&& r == Ok::<HealthStatus, RemoteError>(health_after_failures(old(self)@.failure_count))
                    &&& final(self)@ == (RemoteView { health: health_after_failures(old(self)@.failure_count), ..old(self)@ })
                },
            },
    {
        match rpc {
            Some(Ok(resp)) => {
                let status = status_from_code(resp.status);
                self.health_status = status;
                self.update_capacity(resp.total_blocks as usize, resp.free_blocks as usize);
                self.record_success();
                Ok(status)
            },
            Some(Err(message)) => {
                self.record_failure();
                Err(RemoteError::Transport { message })
            },
            None => {
                let status = if self.failure_count > DEAD_AFTER_FAILURES {
                    HealthStatus::Dead
                } else if self.failure_count > 0 {
                    HealthStatus::Degraded
                } else {
                    HealthStatus::Healthy
                };
                self.health_status = status;
                Ok(status)
            },
        }
    }

    /// The node's state hash. With a reply: a hash of 32 bytes is returned and the
    /// call counts as a success; another length is refused (nothing recorded); a
    /// failed call is a failure. Without a channel: the hash of "remote-state".
    pub fn get_state_hash(&mut self, rpc: Option<Result<StateHashResponse, String>>) -> (r: Result<[u8; 32], RemoteError>)
        requires
            call_failed(rpc) ==> old(self)@.failure_count < u32::MAX,
        ensures
            match rpc {
                Some(Ok(resp)) => if resp.state_hash@.len() == 32 {
                    r is Ok && r->Ok_0@ == resp.state_hash@ && final(self)@ == after_success(old(self)@)
                } else {
                    &&& r matches Err(RemoteError::InvalidHashLength { len }) && len == resp.state_hash@.len()
                    &&& final(self)@ == old(self)@
                },
                Some(Err(status)) => {
                    &&& r matches Err(RemoteError::Transport { message }) && message@ == status@
                    &&& final(self)@ == after_failure(old(self)@)
                },
                None => r is Ok && r->Ok_0@ == stub_state_hash() && final(self)@ == old(self)@,
            },
    {
        match rpc {
            Some(Ok(resp)) => {
                if resp.state_hash.len() != 32 {
                    return Err(RemoteError::InvalidHashLength { len: resp.state_hash.len() });
                }
                let mut buf = [0u8; 32];
                let mut i: usize = 0;
                while i < 32
                    invariant
                        i <= 32,
                        resp.state_hash@.len() == 32,
                        buf@.len() == 32,
                        forall|j: int| 0 <= j < i ==> buf@[j] == resp.state_hash@[j],
                    decreases 32 - i,
                {
                    buf.set(i, resp.state_hash[i]);
                    i = i + 1;
                }
                assert(buf@ =~= resp.state_hash@);
                self.record_success();
                Ok(buf)
            },
            Some(Err(message)) => {
                self.record_failure();
                Err(RemoteError::Transport { message })
            },
            None => {
                let mut bytes: Vec<u8> = Vec::new();
                let text = String::from_str("remote-state");
                push_str_bytes(&mut bytes, &text);
                assert(bytes@ =~= vstd::utf8::encode_utf8("remote-state"@));
                Ok(blake3_digest(&bytes))
            },
        }
    }

    /// The capacity the node last reported.
    pub fn get_known_capacity(&self) -> (r: Option<RemoteCapacity>)
        ensures
            match r {
                Some(c) => self@.capacity == Some((c.total_blocks, c.free_blocks)),
                None => self@.capacity is None,
            },
    {
        match &self.known_capacity {
            Some(c) => Some(RemoteCapacity { total_blocks: c.total_blocks, free_blocks: c.free_blocks, last_updated: c.last_updated.clone() }),
            None => None,
        }
    }

    pub fn health_status(&self) -> (r: HealthStatus)
        ensures
            r == self@.health,
    {
        self.health_status
    }

    /// Whole seconds since the last successful call (read from the clock), if any.
    pub fn last_success_age_secs(&self) -> (r: Option<u64>)
        ensures
            r is Some == self@.has_succeeded,
    {
        match &self.last_success {
            Some(t) => Some(elapsed_ms(t) / 1000),
            None => None,
        }
    }

    pub fn failure_count(&self) -> (r: u32)
        ensures
            r == self@.failure_count,
    {
        self.failure_count
    }

    /// Forget the failures: the node is healthy again.
    pub fn reset_failures(&mut self)
        ensures
            final(self)@ == (RemoteView { failure_count: 0, health: HealthStatus::Healthy, ..old(self)@ }),
    {
        self.failure_count = 0;
        self.health_status = HealthStatus::Healthy;
    }

    pub fn node_id(&self) -> (r: &str)
        ensures
            r@ == self@.node_id,
    {
        self.node_id.as_str()
    }

    pub fn node_addr(&self) -> (r: &str)
        ensures
            r@ == self@.node_addr,
    {
        self.node_addr.as_str()
    }

    pub fn caller_node_id(&self) -> (r: &str)
        ensures
            r@ == self@.caller_node_id,
    {
        self.caller_node_id.as_str()
    }

    pub fn is_connected(&self) -> (r: bool)
        ensures
            r == self@.connected,
    {
        self.connected
    }
}

} // verus!
