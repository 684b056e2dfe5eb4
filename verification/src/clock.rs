//! Points in time. The library never reads a clock: each operation that stamps a
//! row takes the time as an argument.

use vstd::prelude::*;

verus! {

/// A point in time: whole seconds since the epoch and the nanoseconds past them.
#[derive(Debug, Clone, Copy, PartialEq, Eq, Structural)]
pub struct Timestamp {
    pub secs: i64,
    pub nanos: u32,
}

} // verus!
