//! The verified core of an agent host and its gateway.
//!
//! - [`mcp`]: the protocol of tool servers, over HTTP and pipes.
//! - [`ext_js`]: what extension scripts register, and how their hooks count.
//! - [`exec`], [`guard`], [`wire`]: headless runs and what they report.
//! - [`tools`], [`session`], [`gateway`]: what an agent is given, and what the
//!   gateway does with a message, a request or a job.
//! - [`store`], [`cron`], [`history`]: sessions and jobs that outlive a process.
//! - [`source`], [`vector`], [`wiki`]: what is indexed, and where.
//! - [`text`], [`path`], [`order`], [`table`], [`json`], [`time`], [`tool`]:
//!   what the others are built on.
//!
//! Nothing here reads a file, a socket or the clock: functions take what was
//! read and say what to do.

pub mod cron;
pub mod exec;
pub mod ext_js;
pub mod gateway;
pub mod guard;
pub mod history;
pub mod json;
pub mod mcp;
pub mod order;
pub mod path;
pub mod session;
pub mod source;
pub mod store;
pub mod table;
pub mod text;
pub mod time;
pub mod tool;
pub mod tools;
pub mod vector;
pub mod wiki;
pub mod wire;
