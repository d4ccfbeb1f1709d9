//! Points in time, and the clock that gives the moment a filesystem starts.

use vstd::prelude::*;

verus! {

/// Nanoseconds in one second.
pub const NANOS_PER_SEC: i32 = 1_000_000_000;

/// A point in time: whole seconds since the epoch, and the nanoseconds
/// past that second.
#[derive(Clone, Copy, Debug, PartialEq, Eq, Structural)]
pub struct Timestamp {
    pub sec: i64,
    pub nsec: i32,
}

impl Timestamp {
    /// Whether the nanoseconds stay within their second.
    pub open spec fn is_normal(&self) -> bool {
        0 <= self.nsec < NANOS_PER_SEC
    }
}

/// `time::get_time`: the wall clock's reading, seconds and nanoseconds since
/// the epoch. Two readings need not agree, so nothing is said of the value
/// but what the crate checks before it returns one: the nanoseconds are
/// within a second. Trusted, not proved.
#[verifier::external_body]
pub(crate) fn now() -> (t: Timestamp)
    ensures
        t.is_normal(),
{
    let t = ::time::get_time();
    Timestamp { sec: t.sec, nsec: t.nsec }
}

} // verus!
