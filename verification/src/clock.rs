//! Points in time.
use vstd::prelude::*;

verus! {

/// A point in time: whole seconds since the start of 1970 in UTC, and nanoseconds.
#[derive(Clone, Copy, PartialEq, Eq, Structural, Debug)]
pub struct Timestamp {
    pub secs: i64,
    pub nanos: u32,
}

impl Timestamp {
    /// A time that the clock can show: not before 1970, with less than a second's nanoseconds.
    pub open spec fn is_clock_time(self) -> bool {
        self.secs >= 0 && self.nanos < 1_000_000_000
    }
}

/// The present, from [`chrono::Utc::now`].
///
/// What it claims: the time is not before 1970, and the nanoseconds make less than a
/// second. Which time it is stays open: two calls may differ. On a clock that is set before 1970
/// the call does not return.
#[verifier::external_body]
pub(crate) fn utc_now() -> (t: Timestamp)
    ensures
        t.is_clock_time(),
{
    let now = chrono::Utc::now();
    Timestamp { secs: now.timestamp(), nanos: now.timestamp_subsec_nanos() }
}

} // verus!
