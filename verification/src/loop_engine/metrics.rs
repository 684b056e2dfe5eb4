//! Process-since-boot engine counters, snapshotted for the health endpoint. They are
//! not persisted; what is happening now is read from the tables.

use vstd::prelude::*;

verus! {

/// The counters.
#[derive(Debug)]
pub struct EngineMetrics {
    /// Iterations settled when their turn completed.
    pub settle_events_total: u64,
    /// Times the completion watcher fell behind and swept all work in flight.
    pub lag_sweep_total: u64,
}

impl Default for EngineMetrics {
    fn default() -> (r: Self)
        ensures
            r.settle_events_total == 0,
            r.lag_sweep_total == 0,
    {
        EngineMetrics { settle_events_total: 0, lag_sweep_total: 0 }
    }
}

impl EngineMetrics {
    /// Bump a counter. Past the greatest number it starts at zero again.
    pub fn inc(counter: &mut u64)
        ensures
            *final(counter) == (if *old(counter) == u64::MAX {
                0
            } else {
                *old(counter) + 1
            }),
    {
        *counter = counter.wrapping_add(1);
    }

    /// The counters as they are now.
    pub fn snapshot(&self) -> (r: MetricsSnapshot)
        ensures
            r.settle_events_total == self.settle_events_total,
            r.lag_sweep_total == self.lag_sweep_total,
    {
        MetricsSnapshot {
            settle_events_total: self.settle_events_total,
            lag_sweep_total: self.lag_sweep_total,
        }
    }
}

/// The counters at one moment.
#[derive(Debug, Clone, Copy, PartialEq, Eq, Structural)]
pub struct MetricsSnapshot {
    pub settle_events_total: u64,
    pub lag_sweep_total: u64,
}

} // verus!
