//! A message broker: per-client message queues, the request handlers that
//! operate on them, and the supporting wire, timing and configuration logic.

pub mod address;
pub mod broker;
pub mod bytes;
pub mod cli;
pub mod config;
pub mod consensus;
pub mod decimal;
pub mod json;
pub mod keyed_queue;
pub mod message;
pub mod messaging;
pub mod network;
pub mod queue;
pub mod raft_timer;
pub mod session;
pub mod timer;
