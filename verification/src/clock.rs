//! Points in time, as the clock reports them.

use vstd::prelude::*;

use crate::deps::utc_now_parts;

verus! {

/// A UTC point in time: whole seconds since the Unix epoch and the
/// nanoseconds past that second.
#[derive(Debug, Clone, Copy, PartialEq, Eq, Structural)]
pub struct Timestamp {
    pub secs: i64,
    pub nanos: u32,
}

impl Timestamp {
    /// The current time, which is not before the Unix epoch.
    pub fn now() -> (t: Self)
        ensures
            t.secs >= 0,
            t.nanos < 1_000_000_000,
    {
        let (secs, nanos) = utc_now_parts();
        Timestamp { secs, nanos }
    }
}

} // verus!
