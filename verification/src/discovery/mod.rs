//! Peer discovery over mDNS.
//!
//! Each node advertises itself under [`mdns::SERVICE_TYPE`] and listens
//! for others doing the same. The advertising and browsing are done by
//! an mDNS daemon outside this crate; what it reports is handed to
//! [`mdns::DiscoveryState`], which decides what the node does about it.

pub mod mdns;
