//! Engine health: what is going on now, with the counters since boot.

use crate::loop_engine::metrics::MetricsSnapshot;
use vstd::prelude::*;

verus! {

/// Live engine health. An operator reads it to spot trouble at a glance: drivers
/// lagging the running-issue count, token settlements piling up, or repeated sweeps.
#[derive(Debug, Clone, Copy, PartialEq, Eq, Structural)]
pub struct LoopEngineHealth {
    /// Issues that are running.
    pub running_issues: u64,
    /// Iterations that have not settled.
    pub in_flight_iterations: u64,
    /// Settled iterations whose token total is still to be charged.
    pub pending_token_iterations: u64,
    /// Live per-issue drivers.
    pub active_drivers: u64,
    /// Counters since boot.
    pub metrics: MetricsSnapshot,
}

} // verus!
