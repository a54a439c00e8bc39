//! Small helpers that do not belong to a single subsystem: the release
//! version shown in the startup banner, and the compute resources a node
//! advertises to its peers.

pub mod banner;
pub mod sysinfo;
