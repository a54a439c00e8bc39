//! Message types exchanged between Sangam nodes over TCP.
//!
//! Every value that travels between two nodes is a
//! [`message::NodeMessage`], written as one line of JSON.

pub mod message;
