//! Points in time.

use vstd::prelude::*;

verus! {

/// A point in time: seconds since the start of 1970 and the nanoseconds of the
/// running second.
#[derive(Clone, Copy, Debug, PartialEq, Eq, Structural)]
pub struct Timestamp {
    pub secs: i64,
    pub nanos: u32,
}

impl View for Timestamp {
    type V = Timestamp;

    open spec fn view(&self) -> Timestamp {
        *self
    }
}

impl DeepView for Timestamp {
    type V = Timestamp;

    open spec fn deep_view(&self) -> Timestamp {
        *self
    }
}

/// Reads the clock with `chrono::Utc::now` and hands the reading over as
/// seconds and nanoseconds. Nothing is claimed of the reading: two calls may
/// differ in any way. `chrono` gives up where the clock of the machine stands
/// before the year 1970.
#[verifier::external_body]
pub(crate) fn now() -> Timestamp {
    let t = chrono::Utc::now();
    Timestamp { secs: t.timestamp(), nanos: t.timestamp_subsec_nanos() }
}

} // verus!
