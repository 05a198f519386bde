//! The peer-facing node service: health, and acceptance of submitted
//! transactions and blocks.

use vstd::prelude::*;
use vstd::string::StringExecFns;

verus! {

pub struct HealthCheckRequest;

pub struct HealthCheckResponse {
    pub healthy: bool,
    pub version: String,
    pub block_height: u64,
}

pub struct SubmitTransactionRequest {
    pub transaction_data: Vec<u8>,
    pub tx_hash: String,
}

pub struct SubmitTransactionResponse {
    pub success: bool,
    pub message: String,
    pub tx_hash: String,
}

pub struct SubmitBlockRequest {
    pub block_data: Vec<u8>,
    pub block_hash: String,
    pub height: u64,
}

pub struct SubmitBlockResponse {
    pub success: bool,
    pub message: String,
    pub block_hash: String,
}

pub struct SyncBlocksRequest {
    pub from_height: u64,
    pub to_height: u64,
}

pub struct SyncBlocksResponse {
    pub blocks: Vec<Vec<u8>>,
    pub has_more: bool,
}

/// The peer-facing service.
#[derive(Debug, Default)]
pub struct NodeGrpcService;

impl NodeGrpcService {
    /// Healthy, version "0.9.1", height 0.
    pub fn health_check(&self, request: HealthCheckRequest) -> (r: HealthCheckResponse)
        ensures
            r.healthy && r.version@ == "0.9.1"@ && r.block_height == 0,
    {
        HealthCheckResponse { healthy: true, version: String::from_str("0.9.1"), block_height: 0 }
    }

    /// Every transaction is accepted.
    pub fn submit_transaction(&self, request: SubmitTransactionRequest) -> (r: SubmitTransactionResponse)
        ensures
            r.success && r.message@ == "Transaction accepted"@ && r.tx_hash@ == "mock_tx_hash_123"@,
    {
        SubmitTransactionResponse {
            success: true,
            message: String::from_str("Transaction accepted"),
            tx_hash: String::from_str("mock_tx_hash_123"),
        }
    }

    /// Every block is accepted.
    pub fn submit_block(&self, request: SubmitBlockRequest) -> (r: SubmitBlockResponse)
        ensures
            r.success && r.message@ == "Block accepted"@ && r.block_hash@ == "mock_block_hash_456"@,
    {
        SubmitBlockResponse {
            success: true,
            message: String::from_str("Block accepted"),
            block_hash: String::from_str("mock_block_hash_456"),
        }
    }

    /// No blocks, nothing more.
    pub fn sync_blocks(&self, request: SyncBlocksRequest) -> (r: SyncBlocksResponse)
        ensures
            r.blocks@.len() == 0 && !r.has_more,
    {
        SyncBlocksResponse { blocks: Vec::new(), has_more: false }
    }
}

} // verus!
