//! Compute resources a node advertises to its peers.

use vstd::prelude::*;

verus! {

/// A snapshot of the local machine's relevant compute resources.
#[derive(Clone, Copy, Debug, PartialEq, Eq, Structural)]
pub struct NodeSpecs {
    /// Number of logical CPU cores the OS exposes.
    pub cpu_threads: usize,
    /// Total physical memory in gibibytes (1 GiB = 2^30 bytes).
    pub ram_gib: u64,
}

/// Bytes per gibibyte.
pub const BYTES_PER_GIB: u64 = 1_073_741_824;

/// `bytes` expressed in whole gibibytes, rounded to the nearest one
/// (halves round up).
pub open spec fn spec_gib_rounded(bytes: nat) -> nat {
    ((bytes + 536_870_912) / 1_073_741_824) as nat
}

/// Total memory in bytes, rounded to the nearest whole gibibyte.
pub fn gib_rounded(bytes: u64) -> (g: u64)
    ensures
        g == spec_gib_rounded(bytes as nat),
{
    let whole = bytes / BYTES_PER_GIB;
    let rest = bytes % BYTES_PER_GIB;
    if rest >= BYTES_PER_GIB / 2 {
        whole + 1
    } else {
        whole
    }
}

} // verus!
