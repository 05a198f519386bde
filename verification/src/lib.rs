//! CHUDO: a small blockchain (blocks, transactions, balances, a mempool and
//! the tips of a block DAG), its peer protocol, the node's request handlers,
//! and a messenger with X25519 session keys.

pub mod block;
pub mod crypto;
pub mod dag;
pub mod encoding;
pub mod grpc_client;
pub mod hexcodec;
pub mod keymap;
pub mod mempool;
pub mod messenger;
pub mod node;
pub mod p2p;
pub mod state;
pub mod transaction;

pub use block::Block;
pub use crypto::KeyPair;
pub use dag::BlockDAG;
pub use state::BlockchainState;
pub use transaction::Transaction;
