//! The command-line settings of the broker and of its client programs, with
//! their defaults and their printed summaries.

pub mod broker_args;
pub mod node_opt;
pub mod push_receiver_args;
pub mod receiver_args;
pub mod sender_args;
