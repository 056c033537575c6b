//! Per-entity rate state and the constants of the rate cap.

use vstd::prelude::*;

verus! {

/// Nanoseconds in one second: the length of both the idle-forgiveness
/// window and the maximum tolerated scheduling backlog.
pub const NSEC_PER_SEC: u64 = 1_000_000_000;

/// The byte-rate cap, in bytes per second (10 MiB/s).
pub const BPS: u64 = 1048576 * 10;

/// Per-entity, per-direction rate state.
///
/// `t_last` is the virtual departure time: the nanosecond timestamp at
/// which the next byte is allowed to depart under the rate cap.
/// `previous` is the timestamp of the previous packet processed for the
/// entity.
#[derive(Debug, Clone, Copy, PartialEq, Eq, Structural)]
pub struct Info {
    pub t_last: u64,
    pub previous: u64,
}

impl Info {
    pub fn new(t_last: u64, previous: u64) -> (r: Self)
        ensures
            r.t_last == t_last,
            r.previous == previous,
    {
        Self { t_last, previous }
    }
}

} // verus!
