//! The log of a session: its events, what has been made of them, and the files
//! that both are kept in.

pub mod error;
pub mod event;
pub mod files;
pub mod json_store;
pub mod log;
pub mod meta;
