//! The arithmetic the metrics sampler does on raw readings.

use vstd::prelude::*;

verus! {

/// Default sampling interval in milliseconds.
pub const DEFAULT_INTERVAL_MS: u64 = 1_000;

/// Bytes per mebibyte.
pub const BYTES_PER_MIB: u64 = 1_048_576;

/// A byte count in whole mebibytes, rounded down.
pub fn bytes_to_mib(bytes: u64) -> (mib: u64)
    ensures
        mib == bytes / BYTES_PER_MIB,
{
    bytes / BYTES_PER_MIB
}

/// The sampling interval actually used: a zero interval falls back to
/// the default.
pub fn effective_interval_ms(requested_ms: u64) -> (ms: u64)
    ensures
        ms == if requested_ms == 0 {
            DEFAULT_INTERVAL_MS
        } else {
            requested_ms
        },
        ms > 0,
{
    if requested_ms == 0 {
        DEFAULT_INTERVAL_MS
    } else {
        requested_ms
    }
}

/// The exact sum of the first (received) components.
pub open spec fn sum_received(s: Seq<(u64, u64)>) -> nat
    decreases s.len(),
{
    if s.len() == 0 {
        0
    } else {
        sum_received(s.drop_last()) + (s.last().0 as nat)
    }
}

/// The exact sum of the second (transmitted) components.
pub open spec fn sum_transmitted(s: Seq<(u64, u64)>) -> nat
    decreases s.len(),
{
    if s.len() == 0 {
        0
    } else {
        sum_transmitted(s.drop_last()) + (s.last().1 as nat)
    }
}

/// `v` capped at `u64::MAX`.
pub open spec fn saturate(v: nat) -> u64 {
    if v > u64::MAX {
        u64::MAX
    } else {
        v as u64
    }
}

/// Total bytes received and transmitted across interfaces, each total
/// saturating at `u64::MAX`.
pub fn total_traffic(per_interface: &[(u64, u64)]) -> (totals: (u64, u64))
    ensures
        totals.0 == saturate(sum_received(per_interface@)),
        totals.1 == saturate(sum_transmitted(per_interface@)),
{
    let n = per_interface.len();
    let mut rx: u64 = 0;
    let mut tx: u64 = 0;
    let mut i: usize = 0;
    while i < n
        invariant
            n == per_interface@.len(),
            i <= n,
            rx == saturate(sum_received(per_interface@.take(i as int))),
            tx == saturate(sum_transmitted(per_interface@.take(i as int))),
        decreases n - i,
    {
        proof {
            assert(per_interface@.take(i + 1).drop_last() =~= per_interface@.take(i as int));
        }
        let (r, t) = per_interface[i];
        rx = rx.saturating_add(r);
        tx = tx.saturating_add(t);
        i = i + 1;
    }
    proof {
        assert(per_interface@.take(n as int) =~= per_interface@);
    }
    (rx, tx)
}

} // verus!
