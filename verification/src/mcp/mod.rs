//! A client of the Model Context Protocol: the messages that go to a tool
//! server, and what its answers mean.

pub mod client;
pub mod config;
pub mod error;
pub mod rpc;
pub mod sse;
pub mod tools;
