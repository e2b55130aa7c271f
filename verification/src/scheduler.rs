//! Wait-strategy decision of the background scheduler loop.
//!
//! Each loop iteration reads the shared sampling interval and waits it out
//! before delivering a trigger to every registered target. An interval at or
//! above the coarse sleep granularity of common schedulers (one millisecond)
//! is waited out with a blocking timed sleep; a sub-millisecond interval is
//! busy-waited against a monotonic deadline, trading CPU for precision. The
//! waiting itself and the trigger delivery are platform work done by the
//! surrounding program; this module decides which path to take.

use vstd::prelude::*;

verus! {

/// One millisecond in nanoseconds: the coarse sleep granularity below which
/// a blocking sleep cannot be trusted to wake on time.
pub const ONE_MILLISECOND_NS: u64 = 1_000_000;

/// How the scheduler waits out one sampling interval.
#[derive(Clone, Copy, Debug, PartialEq, Eq, Structural)]
pub enum WaitKind {
    /// Block in a timed sleep for the whole interval.
    BlockingSleep,
    /// Spin against a monotonic clock deadline.
    BusyWait,
}

/// Picks the wait path for one interval: busy-wait exactly when the interval
/// is below the one-millisecond sleep granularity, a blocking sleep otherwise.
pub fn choose_wait_kind(interval_ns: u64) -> (k: WaitKind)
    ensures
        k == WaitKind::BusyWait <==> interval_ns < ONE_MILLISECOND_NS,
        k == WaitKind::BlockingSleep <==> interval_ns >= ONE_MILLISECOND_NS,
{
    if interval_ns >= ONE_MILLISECOND_NS {
        WaitKind::BlockingSleep
    } else {
        WaitKind::BusyWait
    }
}

} // verus!
