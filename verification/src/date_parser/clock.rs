//! The time of day: hours, minutes and seconds with an optional fraction, an
//! optional "am" or "pm", and an optional zone behind them.

use vstd::prelude::*;
use vstd::string::*;
use crate::date_parser::pattern::{
    blanked, first_match, get_group, group, group_number, groups_of, read_group, regex_captures,
    take_first,
};
use crate::date_parser::record::{put, DateTime, Fields, Slot};
use crate::date_parser::text::{same_ignoring_case, str_eq_ignore_case};

verus! {

/// A time of day (group 1) with an optional zone behind it (group 2). The
/// time is `H:M`, `H:M:S` with an optional fraction, or hours marked by `h`
/// with optional minutes and seconds, each with an optional "am" or "pm"; or
/// just hours with "am" or "pm". The zone is a signed number with an
/// optional "gmt" or "utc" in front, a name that ends in "standard time" or
/// "daylight time", or a word with an optional "dst" behind it.
pub const TIME_WITH_ZONE: &'static str = r"
            (
                (?:
                \d+\s*:\s*\d+
                (?:
                    \s*:\s*\d+(?:[,.]\d*)?
                )?
                |
                \d+\s*h(?:\s*\d+m?(?:\s*\d+s?)?)?
                )
                (?:
                \s*
                [ap](?:m\b|\.m\.)
                )?
            |
                \d+\s*[ap](?:m\b|\.m\.)
            )
            (?:
                \s*
                (
                (?:gmt|utc?)?[-+]\d+(?:[,.:]\d+(?::\d+)?)?
                |
                (?-i:[[:alpha:].\s]+)(?:standard|daylight)\stime\b
                |
                (?-i:[[:alpha:]]+)(?:\sdst)?\b
                )
            )?
        ";

/// The parts of a time of day, from its start: hours (group 1), minutes
/// (group 2), seconds (group 3) with the digits of their fraction (group 4),
/// and the `a` or `p` of "am" or "pm" (group 5).
pub const TIME: &'static str = r"
            \A(\d+)h?
                (?:\s*:?\s*(\d+)m?
                    (?:
                        \s*:?\s*(\d+)(?:[,.](\d+))?s?
                    )?
                )?
            (?:\s*([ap])(?:m\b|\.m\.))?
        ";

/// An hour of the twelve-hour clock as an hour of the day: the hour modulo
/// 12, and 12 more in the afternoon. A record without an hour stays as it
/// is.
pub open spec fn half_day(dt: Fields, afternoon: bool) -> Fields {
    match dt.hour {
        Some(h) => Fields {
            hour: Some(
                if afternoon {
                    (h % 12 + 12) as u64
                } else {
                    h % 12
                },
            ),
            ..dt
        },
        None => dt,
    }
}

/// The record after the parts `g` of a time of day were read: hour, minute
/// and second where they are written, the fraction's digits, and the hour
/// moved into its half of the day where "am" or "pm" is given.
pub open spec fn clock_fields(dt: Fields, g: Seq<Option<Seq<char>>>) -> Fields {
    let a = put(dt, Slot::Hour, group_number(g, 1));
    let b = put(a, Slot::Min, group_number(g, 2));
    let c = put(b, Slot::Sec, group_number(g, 3));
    let d = match group(g, 4) {
        Some(f) => Fields { sec_fraction: Some(f), ..c },
        None => c,
    };
    match group(g, 5) {
        Some(p) => half_day(d, same_ignoring_case(p, "p"@)),
        None => d,
    }
}

/// The record after a match of [`TIME_WITH_ZONE`] with the groups `g`: the
/// zone is kept as written, and the time is taken apart by [`TIME`].
pub open spec fn time_fields(dt: Fields, g: Seq<Option<Seq<char>>>) -> Fields {
    let a = match group(g, 2) {
        Some(z) => Fields { zone: Some(z), ..dt },
        None => dt,
    };
    match group(g, 1) {
        Some(t) => match groups_of(TIME@, true, true, t) {
            Some(parts) => clock_fields(a, parts),
            None => a,
        },
        None => a,
    }
}

/// What the time stage makes of the text `s` and the record `dt`: the text
/// that is left, and the record.
pub open spec fn time_stage(s: Seq<char>, dt: Fields) -> (Seq<char>, Fields) {
    match regex_captures(TIME_WITH_ZONE@, true, true, s) {
        Some(m) => (blanked(m), time_fields(dt, m.1)),
        None => (s, dt),
    }
}

/// Moves the hour into its half of the day: see [`half_day`].
pub fn apply_half_day(datetime: &mut DateTime, afternoon: bool)
    ensures
        final(datetime)@ == half_day(old(datetime)@, afternoon),
{
    match datetime.hour {
        Some(h) => {
            if afternoon {
                datetime.hour = Some(h % 12 + 12);
            } else {
                datetime.hour = Some(h % 12);
            }
        },
        None => {},
    }
}

/// Writes the parts `groups` of a time of day into `datetime`: see
/// [`clock_fields`].
pub fn apply_clock(datetime: &mut DateTime, groups: &Vec<Option<String>>)
    ensures
        final(datetime)@ == clock_fields(old(datetime)@, groups.deep_view()),
{
    datetime.set(Slot::Hour, read_group(groups, 1));
    datetime.set(Slot::Min, read_group(groups, 2));
    datetime.set(Slot::Sec, read_group(groups, 3));
    match get_group(groups, 4) {
        Some(f) => {
            datetime.set_sec_fraction(f);
        },
        None => {},
    }
    match get_group(groups, 5) {
        Some(p) => {
            apply_half_day(datetime, str_eq_ignore_case(p, "p"));
        },
        None => {},
    }
}

/// Writes what a match of [`TIME_WITH_ZONE`] with the groups `groups` says
/// into `datetime`: see [`time_fields`].
pub fn apply_time(datetime: &mut DateTime, groups: &Vec<Option<String>>)
    ensures
        final(datetime)@ == time_fields(old(datetime)@, groups.deep_view()),
{
    match get_group(groups, 2) {
        Some(z) => {
            datetime.set_zone(z);
        },
        None => {},
    }
    match get_group(groups, 1) {
        Some(t) => match first_match(TIME, true, true, t) {
            Some(found) => {
                apply_clock(datetime, &found.groups);
            },
            None => {},
        },
        None => {},
    }
}

/// Looks in `string` for a time of day with an optional zone and writes
/// hour, minute, second, fraction and zone into `datetime`. The match gives
/// way to one space. The result is always `true`: this stage never keeps
/// later stages from running.
pub fn parse_time(string: &mut String, datetime: &mut DateTime) -> (r: bool)
    ensures
        r,
        (final(string)@, final(datetime)@) == time_stage(old(string)@, old(datetime)@),
{
    match take_first(TIME_WITH_ZONE, true, true, string) {
        Some(groups) => {
            apply_time(datetime, &groups);
        },
        None => {},
    }
    true
}

} // verus!
