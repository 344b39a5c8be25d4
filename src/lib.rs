//! A small HTTP/1.1 server library: request framing, response serialization
//! and the per-connection state machine, with their contracts.
pub mod text;
pub mod http;
pub mod message;
pub mod connection;
pub mod server;
