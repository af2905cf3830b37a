//! The server side: what the gRPC service answers agents, and what the HTTP
//! service answers users.

pub mod grpc;
pub mod http;
