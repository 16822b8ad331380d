use vstd::prelude::*;

verus! {

/// Health codes of the scheduling service's health reply.
pub const STATUS_UNKNOWN: i32 = 0;
pub const STATUS_SERVING: i32 = 1;
pub const STATUS_NOT_SERVING: i32 = 2;
pub const STATUS_DEGRADED: i32 = 3;

/// Ask a node for blocks.
#[derive(Debug, Clone)]
pub struct AllocateRequest {
    pub request_id: String,
    pub num_blocks: u32,
    pub caller_node_id: String,
}

/// A node's answer to an allocation.
#[derive(Debug, Clone)]
pub struct AllocateResponse {
    pub block_ids: Vec<u64>,
    pub free_blocks: u32,
    pub total_blocks: u32,
    pub ok: bool,
    pub error: String,
}

/// Ask a node to release blocks.
#[derive(Debug, Clone)]
pub struct DeallocateRequest {
    pub block_ids: Vec<u64>,
    pub caller_node_id: String,
}

/// A node's answer to a release.
#[derive(Debug, Clone)]
pub struct DeallocateResponse {
    pub ok: bool,
    pub error: String,
    pub free_blocks: u32,
}

/// Ask a node for its state hash.
#[derive(Debug, Clone)]
pub struct StateHashRequest {
    pub caller_node_id: String,
}

/// A node's state hash.
#[derive(Debug, Clone)]
pub struct StateHashResponse {
    pub state_hash: Vec<u8>,
    pub epoch: u64,
    pub num_owned_blocks: u32,
}

/// Ask a node how it is.
#[derive(Debug, Clone)]
pub struct HealthRequest {
    pub caller_node_id: String,
}

/// A node's health.
#[derive(Debug, Clone)]
pub struct HealthResponse {
    pub status: i32,
    pub node_id: String,
    pub free_blocks: u32,
    pub total_blocks: u32,
    pub uptime_secs: u64,
}

} // verus!
