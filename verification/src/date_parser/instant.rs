//! A resolved instant: a date and a time of day together with their offset
//! from UTC.

use vstd::prelude::*;
use crate::date_parser::calendar::days_in_month;

verus! {

/// A date and a time of day at a given offset from UTC.
#[derive(Clone, Copy, Debug, PartialEq, Eq)]
pub struct Instant {
    /// Year; year 0 is 1 BC.
    pub year: i32,
    /// Month, from 1 to 12.
    pub month: u32,
    /// Day of the month, from 1.
    pub day: u32,
    /// Hour, from 0 to 23.
    pub hour: u32,
    /// Minute, from 0 to 59.
    pub minute: u32,
    /// Second, from 0 to 59.
    pub second: u32,
    /// Billionths of a second.
    pub nanos: u32,
    /// Offset from UTC in seconds, east positive.
    pub offset: i32,
}

impl Instant {
    /// Whether the fields make a date of the calendar, a time of day to the
    /// second, and an offset of less than a day.
    pub open spec fn civil(&self) -> bool {
        &&& 1 <= self.month <= 12
        &&& 1 <= self.day <= days_in_month(self.year as int, self.month as int)
        &&& self.hour <= 23
        &&& self.minute <= 59
        &&& self.second <= 59
        &&& -86400 < self.offset < 86400
    }

    /// Whether the instant is well formed: its fields make a date, a time
    /// of day and an offset of less than a day, and the billionths stay
    /// within their second.
    pub open spec fn wf(&self) -> bool {
        self.civil() && self.nanos < 1_000_000_000
    }
}

} // verus!
