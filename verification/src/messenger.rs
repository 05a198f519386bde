//! The messenger: session keys, messages, rewards and storage.

pub mod encryption;
pub mod incentive;
pub mod node;
pub mod protocol;
pub mod storage;
