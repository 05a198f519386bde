//! The peer-to-peer protocol: its messages and how a node answers them.
//! Sockets and threads stay with the caller.

use vstd::prelude::*;
use vstd::string::StringExecFns;

verus! {

/// A peer's identifier.
pub type PeerId = String;

/// A message between peers.
#[derive(Debug, Clone)]
pub enum Message {
    Handshake { version: String, peer_id: PeerId },
    Ping,
    Pong,
    GetPeers,
    PeersList(Vec<PeerId>),
    NewTransaction(Vec<u8>),
    NewBlock(Vec<u8>),
    GetBlock(String),
    BlockResponse(Vec<u8>),
}

/// What a node does with a message it received.
#[derive(Debug, Clone)]
pub enum PeerAction {
    /// Remember the sender under `peer_id` (it announced protocol `version`).
    RegisterPeer { peer_id: PeerId, version: String },
    /// Answer with a `Pong`.
    ReplyPong,
    /// Report a transaction of `len` bytes.
    ReportTransaction { len: usize },
    /// Report a block of `len` bytes.
    ReportBlock { len: usize },
    /// Nothing to do.
    Ignore,
}

/// The protocol version a node announces.
pub open spec fn protocol_version() -> Seq<char> {
    "0.7.0"@
}

/// How a node answers `msg`: a handshake registers its peer, a ping is
/// answered with a pong, transactions and blocks are reported by size, and
/// every other message is ignored.
pub fn handle_message(msg: Message) -> (r: PeerAction)
    ensures
        match msg {
            Message::Handshake { version, peer_id } => r == PeerAction::RegisterPeer { peer_id, version },
            Message::Ping => r == PeerAction::ReplyPong,
            Message::NewTransaction(tx) => r == PeerAction::ReportTransaction { len: tx@.len() as usize },
            Message::NewBlock(block) => r == PeerAction::ReportBlock { len: block@.len() as usize },
            _ => r == PeerAction::Ignore,
        },
{
    match msg {
        Message::Handshake { version, peer_id } => PeerAction::RegisterPeer { peer_id, version },
        Message::Ping => PeerAction::ReplyPong,
        Message::NewTransaction(tx) => PeerAction::ReportTransaction { len: tx.len() },
        Message::NewBlock(block) => PeerAction::ReportBlock { len: block.len() },
        _ => PeerAction::Ignore,
    }
}

/// The handshake a node sends when it connects: its protocol version and id.
pub fn handshake_message(local_peer_id: &PeerId) -> (r: Message)
    ensures
        r matches Message::Handshake { version, peer_id } && version@ == protocol_version()
            && peer_id@ == local_peer_id@,
{
    Message::Handshake { version: String::from_str("0.7.0"), peer_id: local_peer_id.clone() }
}

/// The id under which a node records a peer it connected to at `addr`.
pub fn peer_id_for_address(addr: &str) -> (r: PeerId)
    ensures
        r@ == "peer_"@ + addr@,
{
    let mut id = String::from_str("peer_");
    id.append(addr);
    id
}

} // verus!
