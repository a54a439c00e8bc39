//! Peer registry: stateful tracking of discovered Sangam nodes.
//!
//! mDNS yields transient events; the registry turns them into a
//! snapshot of who is here, when we last heard from them, and whether
//! they are Online, Stale or Offline.

pub mod registry;

pub use registry::{classify, Peer, PeerRegistry, PeerStatus, OFFLINE_AFTER, STALE_AFTER};
