//! The clock abstraction.  The pipeline only ever asks a clock to sleep; the
//! virtual variant advances an elapsed-time counter and returns immediately,
//! so deterministic replay never waits on wall time.  The wall-clock variant
//! is a marker type whose actual suspension lives with the surrounding
//! process, outside this crate.

use vstd::prelude::*;

verus! {

/// The wall-clock variant.  Sleeping on it suspends the caller for real
/// time, which is the surrounding process's business, not this crate's.
pub struct RealClock;

impl RealClock {
    pub fn new() -> (r: RealClock) {
        RealClock
    }
}

/// Elapsed virtual time after sleeping for `duration_ms` starting from
/// `current_ms`.  The counter saturates instead of wrapping, so elapsed time
/// never decreases.
pub open spec fn spec_clock_advance(current_ms: u64, duration_ms: u64) -> u64 {
    if current_ms + duration_ms > u64::MAX {
        u64::MAX
    } else {
        (current_ms + duration_ms) as u64
    }
}

/// The virtual clock: a non-negative, monotonically non-decreasing elapsed
/// duration in milliseconds, mutated only by simulated sleeps.  Single-owner;
/// no concurrent mutation.
pub struct SimulatedClock {
    pub current_time_ms: u64,
}

impl SimulatedClock {
    pub fn new() -> (r: SimulatedClock)
        ensures
            r.current_time_ms == 0,
    {
        SimulatedClock { current_time_ms: 0 }
    }

    /// Advance elapsed time by `duration_ms` without blocking.
    pub fn advance(&mut self, duration_ms: u64)
        ensures
            final(self).current_time_ms == spec_clock_advance(
                old(self).current_time_ms,
                duration_ms,
            ),
            final(self).current_time_ms >= old(self).current_time_ms,
    {
        if duration_ms > u64::MAX - self.current_time_ms {
            self.current_time_ms = u64::MAX;
        } else {
            self.current_time_ms = self.current_time_ms + duration_ms;
        }
    }

    /// A simulated sleep: advances the virtual clock and returns at once.
    pub fn sleep(&mut self, duration_ms: u64)
        ensures
            final(self).current_time_ms == spec_clock_advance(
                old(self).current_time_ms,
                duration_ms,
            ),
            final(self).current_time_ms >= old(self).current_time_ms,
    {
        self.advance(duration_ms);
    }
}

/// Clock monotonicity: however long a sleep is, the virtual clock's elapsed
/// time never decreases, so it is non-decreasing across any execution.
pub proof fn lemma_clock_monotonic(current_ms: u64, duration_ms: u64)
    ensures
        spec_clock_advance(current_ms, duration_ms) >= current_ms,
{
}

} // verus!
