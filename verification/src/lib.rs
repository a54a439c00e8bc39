//! Sangam: a local-first, peer-to-peer compute mesh.
//!
//! The library holds the verified core of a Sangam node: the message
//! model, task execution and lifecycle tracking, the peer registry with
//! its liveness rules, the bounded histories behind logs and metrics,
//! and the decisions taken by discovery and the TCP protocol. Sockets,
//! mDNS, timers and JSON encoding are driven from the outside and hand
//! plain values to the functions here.

pub mod clock;
pub mod discovery;
pub mod logging;
pub mod metrics;
pub mod models;
pub mod networking;
pub mod net;
pub mod peers;
pub mod ring;
pub mod tasks;
pub mod text;
pub mod utils;

use vstd::prelude::*;

verus! {

/// Default TCP port the runtime listens on for peer messages.
pub const DEFAULT_PORT: u16 = 8080;

/// The first 8 bytes of a node id, for log lines; the whole id when it is
/// shorter or when byte 8 falls inside a character.
pub fn short_id(node_id: &str) -> (s: &str)
    ensures
        crate::text::on_char_boundary(node_id@, 8) ==> s@ == crate::text::byte_prefix(node_id@, 8),
        !crate::text::on_char_boundary(node_id@, 8) ==> s@ == node_id@,
{
    match crate::text::prefix_bytes(node_id, 8) {
        Some(p) => p,
        None => node_id,
    }
}

} // verus!
