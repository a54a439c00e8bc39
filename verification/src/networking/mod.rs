//! The decisions of the TCP protocol between nodes.
//!
//! Sockets are driven from outside this crate. What a node answers to a
//! message it receives is decided in [`server`]; how the answer to a task
//! it sent is recorded is decided in [`client`].

pub mod client;
pub mod server;
