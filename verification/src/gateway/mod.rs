//! The gateway: how it starts, what its agent is given, and where messages go.

pub mod agent;
pub mod api;
pub mod messages;
pub mod schedule;
pub mod start;
