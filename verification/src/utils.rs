//! The clock and the calendar.

use vstd::prelude::*;
use chrono::TimeZone;

verus! {

/// The dates that the calendar can show: the years -262143 to 262142.
pub open spec fn pub_date_in_range(date: i64) -> bool {
    -8_334_601_228_800 <= date <= 8_210_266_876_799
}

/// The date `date`, seconds since the epoch, as day, month, year, hour and
/// minute in the time zone of this machine.
///
/// Calls `chrono::Local.timestamp_opt(date, 0)`, which has a single answer
/// for every date within the range of the calendar, and formats that answer
/// with `%d/%m/%Y %H:%M`. The text depends on the time zone of the machine,
/// so nothing is claimed of it.
#[verifier::external_body]
pub fn formatted_pub_date(date: i64) -> (s: String)
    requires
        pub_date_in_range(date),
{
    let parsed = chrono::Local.timestamp_opt(date, 0).unwrap();
    format!("{}", parsed.format("%d/%m/%Y %H:%M"))
}

/// The time now, in seconds since the epoch.
///
/// Calls `chrono::Local::now()` and takes its `timestamp()`. The answer
/// depends on the clock, so nothing is claimed of it.
#[verifier::external_body]
pub(crate) fn current_timestamp() -> (now: i64) {
    chrono::Local::now().timestamp()
}

} // verus!
