//! What the library asks of its surroundings: the clock and the local time
//! zone of the machine, and the calendar arithmetic of the `chrono` crate.

use chrono::{Datelike, Offset, TimeZone, Timelike};
use std::str::FromStr;
use vstd::prelude::*;
use vstd::string::*;
use crate::date_parser::instant::Instant;

verus! {

/// The fields of the moment of a date and time of day at the offset
/// `offset`, told at the offset `target`, as the `chrono` crate computes
/// them: year, month, day, hour, minute, second. `None` where `chrono`
/// cannot represent the date or one of the offsets.
pub uninterp spec fn civil_at_offset(
    year: int,
    month: int,
    day: int,
    hour: int,
    minute: int,
    second: int,
    nanos: int,
    offset: int,
    target: int,
) -> Option<(int, int, int, int, int, int)>;

/// The offset in seconds that `chrono` reads from a text such as `+09:00`;
/// `None` where it reads none.
pub uninterp spec fn fixed_offset_text(text: Seq<char>) -> Option<int>;

/// The six fields of date and time of an instant.
pub open spec fn civil_of(i: Instant) -> (int, int, int, int, int, int) {
    (i.year as int, i.month as int, i.day as int, i.hour as int, i.minute as int, i.second as int)
}

/// The six fields of date and time of an instant that is there.
pub open spec fn civil_of_some(r: Option<Instant>) -> Option<(int, int, int, int, int, int)> {
    match r {
        Some(t) => Some(civil_of(t)),
        None => None,
    }
}

/// Calls `chrono::TimeZone::with_ymd_and_hms` on the offset of `i` and
/// `chrono::DateTime::with_timezone` with the offset `target`.
///
/// The contract names the fields of the result. It claims besides that they
/// make a date and a time of day, as all dates of `chrono` do, that the
/// billionths of the second are those of `i`, that the offset of the result
/// is `target`, and that an instant told at its own offset is the instant
/// itself: `chrono` takes the offset from the local fields and adds the
/// same offset again.
#[verifier::external_body]
pub(crate) fn at_offset(i: &Instant, target: i32) -> (r: Option<Instant>)
    requires
        i.wf(),
    ensures
        civil_at_offset(
            i.year as int,
            i.month as int,
            i.day as int,
            i.hour as int,
            i.minute as int,
            i.second as int,
            i.nanos as int,
            i.offset as int,
            target as int,
        ) == civil_of_some(r),
        r matches Some(t) ==> t.wf() && t.offset == target && t.nanos == i.nanos,
        r matches Some(t) ==> (target == i.offset ==> t == *i),
{
    let from = chrono::FixedOffset::east_opt(i.offset)?;
    let to = chrono::FixedOffset::east_opt(target)?;
    let t = from.with_ymd_and_hms(i.year, i.month, i.day, i.hour, i.minute, i.second).earliest()?
        .with_nanosecond(i.nanos)?.with_timezone(&to);
    Some(Instant {
        year: t.year(),
        month: t.month(),
        day: t.day(),
        hour: t.hour(),
        minute: t.minute(),
        second: t.second(),
        nanos: i.nanos,
        offset: target,
    })
}

/// Calls `chrono::Local::now`: the current time at the offset that the
/// machine's time zone has now. Nothing is known of the result but that it
/// is a date and a time of day, with an offset of less than a day.
#[verifier::external_body]
pub(crate) fn clock_now() -> (r: Instant)
    ensures
        r.civil(),
{
    let t = chrono::Local::now();
    Instant {
        year: t.year(),
        month: t.month(),
        day: t.day(),
        hour: t.hour(),
        minute: t.minute(),
        second: t.second(),
        nanos: t.nanosecond(),
        offset: t.offset().local_minus_utc(),
    }
}

/// The current time at the offset that the machine's time zone has now. In
/// a leap second the billionths stop at the end of the second before it.
pub fn current_instant() -> (r: Instant)
    ensures
        r.wf(),
{
    let t: Instant = clock_now();
    if t.nanos >= 1_000_000_000 {
        Instant { nanos: 999_999_999, ..t }
    } else {
        t
    }
}

/// Calls `chrono::TimeZone::with_ymd_and_hms` on `chrono::Local`: the
/// offset from UTC that the machine's time zone has at the given local date
/// and time, the earlier one where the clock is set back over it. `None`
/// where the date or the time does not exist. Nothing is known of the
/// offset but that it is less than a day.
#[verifier::external_body]
pub(crate) fn local_offset_at(
    year: i32,
    month: u32,
    day: u32,
    hour: u32,
    minute: u32,
    second: u32,
) -> (r: Option<i32>)
    ensures
        r matches Some(o) ==> -86400 < o < 86400,
{
    let t = chrono::Local.with_ymd_and_hms(year, month, day, hour, minute, second).earliest()?;
    Some(t.offset().local_minus_utc())
}

/// Calls `iana_time_zone::get_timezone`, `chrono_tz::Tz::from_str` and
/// `chrono::TimeZone::with_ymd_and_hms`: the name that the machine's time
/// zone goes by at the given local date and time, and its offset from UTC
/// then. `None` where the zone is not known or the time does not exist.
/// Nothing is known of the name; the offset is less than a day.
#[verifier::external_body]
pub(crate) fn local_zone_at(
    year: i32,
    month: u32,
    day: u32,
    hour: u32,
    minute: u32,
    second: u32,
) -> (r: Option<(String, i32)>)
    ensures
        r matches Some(z) ==> -86400 < z.1 < 86400,
{
    let name = iana_time_zone::get_timezone().ok()?;
    let tz = chrono_tz::Tz::from_str(&name).ok()?;
    let t = tz.with_ymd_and_hms(year, month, day, hour, minute, second).earliest()?;
    Some((t.offset().to_string(), t.offset().fix().local_minus_utc()))
}

/// An offset that is there, as a mathematical integer.
pub open spec fn as_int(r: Option<i32>) -> Option<int> {
    match r {
        Some(o) => Some(o as int),
        None => None,
    }
}

/// Calls `chrono::FixedOffset::from_str`: reads an offset such as `+09:00`.
/// The contract names the result and claims that it is less than a day, as
/// every offset of `chrono` is.
#[verifier::external_body]
pub(crate) fn read_fixed_offset(text: &str) -> (r: Option<i32>)
    ensures
        fixed_offset_text(text@) == as_int(r),
        r matches Some(o) ==> -86400 < o < 86400,
{
    match chrono::FixedOffset::from_str(text) {
        Ok(offset) => Some(offset.local_minus_utc()),
        Err(_) => None,
    }
}

} // verus!
