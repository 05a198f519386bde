//! The node's services, over plain request and response values.

pub mod grpc;
pub mod grpc_server;
pub mod messenger_server;
pub mod node_status;
