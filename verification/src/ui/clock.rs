//! The wall clock, read in local time.

use time::{OffsetDateTime, UtcOffset};
use vstd::prelude::*;

verus! {

/// The hour and the minute that the wall clock shows. Reads the clock with
/// `OffsetDateTime::now_utc` and moves it with `to_offset` to the offset that
/// `UtcOffset::current_local_offset` finds, or to UTC where it finds none.
/// The result changes from call to call: all that is claimed of it is what
/// `hour` and `minute` document, an hour below 24 and a minute below 60.
/// The date-times of the `time` crate end with the year 9999; it panics on
/// a clock that stands beyond.
#[verifier::external_body]
pub(crate) fn local_clock_time() -> (r: (u8, u8))
    ensures
        r.0 < 24,
        r.1 < 60,
{
    let local_offset = UtcOffset::current_local_offset().unwrap_or(UtcOffset::UTC);
    let now = OffsetDateTime::now_utc().to_offset(local_offset);
    (now.hour(), now.minute())
}

} // verus!
