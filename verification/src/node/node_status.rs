//! The node's status service and the height counter it reports.

use vstd::prelude::*;
use vstd::string::StringExecFns;

verus! {

pub struct NodeStatus {
    pub running: bool,
    pub block_height: u64,
    pub peer_count: u32,
    pub last_block_hash: String,
}

pub struct CommandRequest {
    pub command: String,
}

pub struct CommandResponse {
    pub success: bool,
    pub message: String,
}

/// The status node: a block height that grows over time.
#[derive(Debug, Default)]
pub struct MyNode {
    pub block_height: u64,
}

impl MyNode {
    /// Running, the current height, 21 peers, a placeholder last hash.
    pub fn get_status(&self) -> (r: NodeStatus)
        ensures
            r.running && r.block_height == self.block_height && r.peer_count == 21
                && r.last_block_hash@ == "0000abc123..."@,
    {
        NodeStatus {
            running: true,
            block_height: self.block_height,
            peer_count: 21,
            last_block_hash: String::from_str("0000abc123..."),
        }
    }

    /// Every command succeeds with "OK".
    pub fn send_command(&self, request: CommandRequest) -> (r: CommandResponse)
        ensures
            r.success && r.message@ == "OK"@,
    {
        CommandResponse { success: true, message: String::from_str("OK") }
    }

    /// One tick of the height counter.
    pub fn advance_height(&mut self)
        requires
            old(self).block_height < u64::MAX,
        ensures
            final(self).block_height == old(self).block_height + 1,
    {
        self.block_height = self.block_height + 1;
    }
}

} // verus!
