//! Composing the fields found in a text, a reference instant and a time
//! zone into one resolved instant.

use vstd::prelude::*;
use vstd::string::*;
use crate::date_parser::ambient::{
    as_int, at_offset, civil_at_offset, current_instant, fixed_offset_text, local_offset_at,
    local_zone_at, read_fixed_offset,
};
use crate::date_parser::calendar::{
    apply_offset, check_date, check_time, checked_date, checked_time, day_of_year,
    days_in_month, lemma_small_moved_fits, month_days, moved, ordinal, out_of_range,
    range_error, small, unsigned_decimal, validated_hms, validated_ymd,
};
use crate::date_parser::instant::Instant;
use crate::date_parser::parse::{date_parse, parsed};
use crate::date_parser::pattern::{
    first_match, get_group, group, group_number, groups_of, is_match, read_group, regex_captures,
};
use crate::date_parser::record::{DateTime, Fields};
use crate::date_parser::text::{
    all_digits, is_char, lemma_run_len, number_i64, parse_signed, same_ignoring_case,
    scale_fraction, scaled_fraction, scan, str_eq, str_eq_ignore_case, CharClass,
};
use crate::{Failure, ParseError};

verus! {

/// The number of entries of [`ZONE_HOURS`].
pub const ZONE_HOUR_COUNT: usize = 36;

/// The zones of RFC 822 and the military letters, each with its offset from
/// UTC in hours.
pub const ZONE_HOURS: [(&'static str, i32); 36] = [
    ("UTC", 0),
    ("Z", 0),
    ("UT", 0),
    ("GMT", 0),
    ("EST", -5),
    ("EDT", -4),
    ("CST", -6),
    ("CDT", -5),
    ("MST", -7),
    ("MDT", -6),
    ("PST", -8),
    ("PDT", -7),
    ("A", 1),
    ("B", 2),
    ("C", 3),
    ("D", 4),
    ("E", 5),
    ("F", 6),
    ("G", 7),
    ("H", 8),
    ("I", 9),
    ("K", 10),
    ("L", 11),
    ("M", 12),
    ("N", -1),
    ("O", -2),
    ("P", -3),
    ("Q", -4),
    ("R", -5),
    ("S", -6),
    ("T", -7),
    ("U", -8),
    ("V", -9),
    ("W", -10),
    ("X", -11),
    ("Y", -12),
];

/// A sign (group 1), two digits of hours (group 2), two of minutes (group
/// 4) and optionally two of seconds (group 6), with optional colons (groups
/// 3 and 5) between them.
pub const ZONE_CLOCK: &'static str = r"\A([+-])(\d\d)(:?)(\d\d)(?:(:?)(\d\d))?\z";

/// A sign and two digits of hours.
pub const ZONE_HOUR: &'static str = r"\A[+-]\d\d\z";

/// The zones that stand for UTC itself.
pub const ZONE_UTC: [&'static str; 7] = ["-00:00", "-0000", "-00", "UTC", "Z", "UT", "GMT"];

/// `v` as a 32-bit number, where it fits.
pub open spec fn fitting32(v: int) -> Option<i32> {
    if i32::MIN <= v <= i32::MAX {
        Some(v as i32)
    } else {
        None
    }
}

/// `v` as a 32-bit number, where it fits.
pub fn fit32(v: i128) -> (r: Option<i32>)
    ensures
        r == fitting32(v as int),
{
    if -2147483648i128 <= v && v <= 2147483647i128 {
        Some(v as i32)
    } else {
        None
    }
}

/// The number that group `i` writes, or 0 where it writes none.
pub open spec fn group_or_zero(g: Seq<Option<Seq<char>>>, i: int) -> int {
    match group_number(g, i) {
        Some(n) => n as int,
        None => 0,
    }
}

/// The offset in seconds that the groups `g` of [`ZONE_CLOCK`] write: hours,
/// minutes and seconds with their sign. `None` where only one of the two
/// separators is a colon, where the hours are no number, or where the
/// offset does not fit in 32 bits.
pub open spec fn clock_zone(g: Seq<Option<Seq<char>>>) -> Option<i32> {
    if group(g, 5) is None || group(g, 3) == group(g, 5) {
        match group_number(g, 2) {
            Some(hour) => {
                let total = (hour * 60 + group_or_zero(g, 4)) * 60 + group_or_zero(g, 6);
                if group(g, 1) == Some(seq!['-']) {
                    fitting32(-total)
                } else {
                    fitting32(total)
                }
            },
            None => None,
        }
    } else {
        None
    }
}

/// The offset that a zone written as a sign and two digits of hours gives.
pub open spec fn hour_zone(zone: Seq<char>) -> Option<i32> {
    match number_i64(zone) {
        Some(h) => fitting32(h * 3600),
        None => None,
    }
}

/// The index of the first entry of [`ZONE_HOURS`] from `from` on whose name
/// is `name`, letter case set aside.
pub open spec fn zone_hour_index(name: Seq<char>, from: int) -> Option<int>
    decreases ZONE_HOUR_COUNT - from,
{
    if from < 0 || from >= ZONE_HOUR_COUNT {
        None
    } else if same_ignoring_case(ZONE_HOURS[from].0@, name) {
        Some(from)
    } else {
        zone_hour_index(name, from + 1)
    }
}

/// The offset in seconds of a zone of RFC 822 or a military letter.
pub open spec fn rfc_zone(name: Seq<char>) -> Option<i32> {
    match zone_hour_index(name, 0) {
        Some(i) => fitting32(ZONE_HOURS[i].1 * 3600),
        None => None,
    }
}

/// `a` where it is there, else `b`.
pub open spec fn or<T>(a: Option<T>, b: Option<T>) -> Option<T> {
    if a is Some {
        a
    } else {
        b
    }
}

/// The offset of a zone that can be told without knowing where the machine
/// stands: one written in numbers, as `+09:00`, `-0930`, `+093015` or
/// `-08`, or one of the zones of RFC 822 and the military letters.
pub open spec fn known_zone(zone: Seq<char>) -> Option<i32> {
    let clock = match groups_of(ZONE_CLOCK@, true, true, zone) {
        Some(g) => clock_zone(g),
        None => None,
    };
    let hour = if regex_captures(ZONE_HOUR@, true, true, zone) is Some {
        hour_zone(zone)
    } else {
        None
    };
    or(clock, or(hour, rfc_zone(zone)))
}

/// The offset that comes with a name, where the name is `zone`, letter
/// case set aside.
pub open spec fn named_offset_of(zone: Seq<char>, name: Option<(Seq<char>, i32)>) -> Option<i32> {
    match name {
        Some(p) => if same_ignoring_case(p.0, zone) {
            Some(p.1)
        } else {
            None
        },
        None => None,
    }
}

/// The offset of the machine's time zone, where `zone` is the name that it
/// goes by in winter or in summer.
pub open spec fn local_zone(
    zone: Seq<char>,
    winter: Option<(Seq<char>, i32)>,
    summer: Option<(Seq<char>, i32)>,
) -> Option<i32> {
    or(named_offset_of(zone, winter), named_offset_of(zone, summer))
}

/// The offset of `zone`: the one that it has wherever the machine stands,
/// or else that of the machine's time zone where `zone` is one of its
/// names.
pub open spec fn zone_offset_given(
    zone: Seq<char>,
    winter: Option<(Seq<char>, i32)>,
    summer: Option<(Seq<char>, i32)>,
) -> Option<i32> {
    or(known_zone(zone), local_zone(zone, winter, summer))
}

/// Whether the offset that comes with a name is less than a day.
pub open spec fn within_a_day(name: Option<(Seq<char>, i32)>) -> bool {
    match name {
        Some(p) => -86400 < p.1 < 86400,
        None => true,
    }
}

/// A name of the machine's time zone with its offset, as sequences.
pub open spec fn name_view(n: Option<(String, i32)>) -> Option<(Seq<char>, i32)> {
    match n {
        Some(p) => Some((p.0@, p.1)),
        None => None,
    }
}

/// Computes [`clock_zone`].
pub fn clock_zone_offset(groups: &Vec<Option<String>>) -> (r: Option<i32>)
    ensures
        r == clock_zone(groups.deep_view()),
{
    let first = get_group(groups, 3);
    let second = get_group(groups, 5);
    let same: bool = match second {
        None => true,
        Some(b) => match first {
            Some(a) => str_eq(a, b),
            None => false,
        },
    };
    if !same {
        return None;
    }
    let hour: i64 = match read_group(groups, 2) {
        Some(h) => h,
        None => {
            return None;
        },
    };
    let mins: i64 = match read_group(groups, 4) {
        Some(n) => n,
        None => 0,
    };
    let secs: i64 = match read_group(groups, 6) {
        Some(n) => n,
        None => 0,
    };
    let total: i128 = (hour as i128 * 60 + mins as i128) * 60 + secs as i128;
    let negative: bool = match get_group(groups, 1) {
        Some(s) => is_char(s, '-'),
        None => false,
    };
    if negative {
        fit32(-total)
    } else {
        fit32(total)
    }
}

/// Looks `name` up among the zones of RFC 822 and the military letters.
pub fn rfc_zone_offset(name: &str) -> (r: Option<i32>)
    ensures
        r == rfc_zone(name@),
{
    let mut i: usize = 0;
    while i < ZONE_HOUR_COUNT
        invariant
            i <= ZONE_HOUR_COUNT,
            zone_hour_index(name@, 0) == zone_hour_index(name@, i as int),
        decreases ZONE_HOUR_COUNT - i,
    {
        if str_eq_ignore_case(ZONE_HOURS[i].0, name) {
            return fit32(ZONE_HOURS[i].1 as i128 * 3600);
        }
        i += 1;
    }
    None
}

/// The offset of a zone that can be told without knowing where the machine
/// stands: see [`known_zone`].
pub fn known_zone_offset(zone: &str) -> (r: Option<i32>)
    ensures
        r == known_zone(zone@),
{
    let clock: Option<i32> = match first_match(ZONE_CLOCK, true, true, zone) {
        Some(found) => clock_zone_offset(&found.groups),
        None => None,
    };
    if clock.is_some() {
        return clock;
    }
    if is_match(ZONE_HOUR, true, true, zone) {
        let hour: Option<i32> = match parse_signed(zone) {
            Some(h) => fit32(h as i128 * 3600),
            None => None,
        };
        if hour.is_some() {
            return hour;
        }
    }
    rfc_zone_offset(zone)
}

/// The offset of the machine's time zone where `zone` is one of its two
/// names: see [`local_zone`].
pub fn local_zone_offset(
    zone: &str,
    winter: &Option<(String, i32)>,
    summer: &Option<(String, i32)>,
) -> (r: Option<i32>)
    ensures
        r == local_zone(zone@, name_view(*winter), name_view(*summer)),
{
    match winter {
        Some(w) => {
            if str_eq_ignore_case(w.0.as_str(), zone) {
                return Some(w.1);
            }
        },
        None => {},
    }
    match summer {
        Some(s) => {
            if str_eq_ignore_case(s.0.as_str(), zone) {
                return Some(s.1);
            }
        },
        None => {},
    }
    None
}

/// The offset of `zone`, given the two names of the machine's time zone:
/// see [`zone_offset_given`].
pub fn zone_offset_with(
    zone: &str,
    winter: &Option<(String, i32)>,
    summer: &Option<(String, i32)>,
) -> (r: Option<i32>)
    ensures
        r == zone_offset_given(zone@, name_view(*winter), name_view(*summer)),
{
    let known: Option<i32> = known_zone_offset(zone);
    if known.is_some() {
        return known;
    }
    local_zone_offset(zone, winter, summer)
}

/// The number of seconds by which the time zone `zone` differs from UTC.
///
/// A zone written in numbers or named in RFC 822 has its offset wherever
/// the machine stands. Any other zone is compared with the names that the
/// machine's own time zone goes by on the first of January and on the first
/// of July of `year`, or of the current year where none is given.
pub fn zone_offset(zone: &str, year: Option<i32>) -> (r: Option<i32>)
    ensures
        known_zone(zone@) is Some ==> r == known_zone(zone@),
        known_zone(zone@) is None ==> (r matches Some(o) ==> -86400 < o < 86400),
        exists|winter: Option<(Seq<char>, i32)>, summer: Option<(Seq<char>, i32)>|
            within_a_day(winter) && within_a_day(summer) && r == #[trigger] zone_offset_given(
                zone@,
                winter,
                summer,
            ),
{
    let known: Option<i32> = known_zone_offset(zone);
    if known.is_some() {
        assert(known == zone_offset_given(zone@, None, None));
        return known;
    }
    let y: i32 = match year {
        Some(y) => y,
        None => current_instant().year,
    };
    let winter = local_zone_at(y, 1, 1, 0, 0, 0);
    let summer = local_zone_at(y, 7, 1, 0, 0, 0);
    let r = local_zone_offset(zone, &winter, &summer);
    assert(r == zone_offset_given(zone@, name_view(winter), name_view(summer)));
    r
}

/// The index of the first entry of [`ZONE_UTC`] from `from` on that is
/// `zone`, letter case set aside.
pub open spec fn utc_index(zone: Seq<char>, from: int) -> Option<int>
    decreases 7 - from,
{
    if from < 0 || from >= 7 {
        None
    } else if same_ignoring_case(ZONE_UTC[from]@, zone) {
        Some(from)
    } else {
        utc_index(zone, from + 1)
    }
}

/// Whether `zone` stands for UTC itself: it is one of [`ZONE_UTC`], letter
/// case set aside.
pub open spec fn utc_zone(zone: Seq<char>) -> bool {
    utc_index(zone, 0) is Some
}

/// Decides whether `zone` stands for UTC itself: `UTC`, `Z`, `UT`, `GMT`,
/// `-0000`, `-00:00` or `-00`.
pub fn is_zone_utc(zone: &str) -> (r: bool)
    ensures
        r == utc_zone(zone@),
{
    let mut i: usize = 0;
    while i < 7
        invariant
            i <= 7,
            utc_index(zone@, 0) == utc_index(zone@, i as int),
        decreases 7 - i,
    {
        if str_eq_ignore_case(ZONE_UTC[i], zone) {
            return true;
        }
        i += 1;
    }
    false
}

/// What a result holds, with a failure by its value.
pub open spec fn seen(r: Result<Instant, ParseError>) -> Result<Instant, Failure> {
    match r {
        Ok(t) => Ok(t),
        Err(e) => Err(e@),
    }
}

/// The instant `t` told at the offset `offset`. An offset of a day or more
/// is out of bounds; an instant that cannot be represented at the offset is
/// a date error.
pub open spec fn told_at(t: Instant, offset: i32) -> Result<Instant, Failure> {
    if !(-86400 < offset < 86400) {
        Err(Failure::OffsetOutOfBounds)
    } else {
        match civil_at_offset(
            t.year as int,
            t.month as int,
            t.day as int,
            t.hour as int,
            t.minute as int,
            t.second as int,
            t.nanos as int,
            t.offset as int,
            offset as int,
        ) {
            Some(c) => Ok(
                Instant {
                    year: c.0 as i32,
                    month: c.1 as u32,
                    day: c.2 as u32,
                    hour: c.3 as u32,
                    minute: c.4 as u32,
                    second: c.5 as u32,
                    nanos: t.nanos,
                    offset: offset,
                },
            ),
            None => Err(Failure::Date),
        }
    }
}

/// Tells the instant `t` at the offset `offset`: see [`told_at`].
pub fn tell_at(t: Instant, offset: i32) -> (r: Result<Instant, ParseError>)
    requires
        t.wf(),
    ensures
        seen(r) == told_at(t, offset),
        r matches Ok(x) ==> x.wf() && x.offset == offset,
        r matches Ok(x) ==> (offset == t.offset ==> x == t),
{
    if offset <= -86400 || offset >= 86400 {
        return Err(ParseError::OffsetOutOfBounds);
    }
    match at_offset(&t, offset) {
        Some(x) => Ok(x),
        None => Err(ParseError::DateError()),
    }
}

/// Tells the instant `t` at the offset `offset`, or at the offset that the
/// machine's time zone has now where none is given.
pub fn to_local_time(t: Instant, offset: Option<i32>) -> (r: Result<Instant, ParseError>)
    requires
        t.wf(),
    ensures
        offset matches Some(o) ==> seen(r) == told_at(t, o),
        exists|o: i32| seen(r) == #[trigger] told_at(t, o),
        r matches Ok(x) ==> x.wf(),
{
    match offset {
        Some(o) => tell_at(t, o),
        None => tell_at(t, current_instant().offset),
    }
}

/// The offset at which an instant of the zone `zone` is told: zero for a
/// zone that stands for UTC itself, else the offset `offset` of the zone.
pub open spec fn forced_offset(zone: Seq<char>, offset: i32) -> i32 {
    if utc_zone(zone) {
        0
    } else {
        offset
    }
}

/// Tells the instant `time` in the zone `zone`: at offset zero where the
/// zone stands for UTC itself, else at `offset`; where no offset is given,
/// at that of the zone, or of the machine's time zone where the zone has
/// none.
///
/// An instant carries its offset as a number only, so nothing tells the
/// machine's time zone from a fixed offset of the same size.
pub fn force_zone(time: Instant, zone: &str, offset: Option<i32>) -> (r: Result<
    Instant,
    ParseError,
>)
    requires
        time.wf(),
    ensures
        offset matches Some(o) ==> seen(r) == told_at(time, forced_offset(zone@, o)),
        exists|o: i32| seen(r) == #[trigger] told_at(time, o),
        r matches Ok(x) ==> x.wf(),
{
    if is_zone_utc(zone) {
        return tell_at(time, 0);
    }
    let resolved: Option<i32> = match offset {
        Some(o) => Some(o),
        None => zone_offset(zone, None),
    };
    match resolved {
        Some(o) => tell_at(time, o),
        None => to_local_time(time, None),
    }
}

/// The fields of a date and a time of day as far as they are known.
#[derive(Clone, Copy, Debug, PartialEq, Eq)]
pub struct Parts {
    pub year: Option<i32>,
    pub mon: Option<u32>,
    pub mday: Option<u32>,
    pub hour: Option<u32>,
    pub min: Option<u32>,
    pub sec: Option<u32>,
    /// The fraction of the second, in billionths.
    pub nanos: Option<u32>,
}

/// The number of fields that are missing at the front of the row year,
/// month, day, hour, minute, second, fraction: from 0, where the year is
/// known, to 7, where nothing is.
pub open spec fn gap(p: Parts) -> int {
    if p.year is Some {
        0
    } else if p.mon is Some {
        1
    } else if p.mday is Some {
        2
    } else if p.hour is Some {
        3
    } else if p.min is Some {
        4
    } else if p.sec is Some {
        5
    } else if p.nanos is Some {
        6
    } else {
        7
    }
}

/// The fields `p` with those that are missing at the front of the row taken
/// from the instant `now`. From the first field that is known on, every
/// field stays as it is, known or not.
pub open spec fn filled(p: Parts, now: Instant) -> Parts {
    Parts {
        year: if gap(p) > 0 {
            Some(now.year)
        } else {
            p.year
        },
        mon: if gap(p) > 1 {
            Some(now.month)
        } else {
            p.mon
        },
        mday: if gap(p) > 2 {
            Some(now.day)
        } else {
            p.mday
        },
        hour: if gap(p) > 3 {
            Some(now.hour)
        } else {
            p.hour
        },
        min: if gap(p) > 4 {
            Some(now.minute)
        } else {
            p.min
        },
        sec: if gap(p) > 5 {
            Some(now.second)
        } else {
            p.sec
        },
        nanos: if gap(p) > 6 {
            Some(now.nanos)
        } else {
            p.nanos
        },
    }
}

/// Fills the fields that are missing at the front of the row year, month,
/// day, hour, minute, second, fraction from the instant `now`: see
/// [`filled`].
pub fn fill_from_reference(p: Parts, now: &Instant) -> (r: Parts)
    ensures
        r == filled(p, *now),
{
    let mut r: Parts = p;
    if r.year.is_some() {
        return r;
    }
    r.year = Some(now.year);
    if r.mon.is_some() {
        return r;
    }
    r.mon = Some(now.month);
    if r.mday.is_some() {
        return r;
    }
    r.mday = Some(now.day);
    if r.hour.is_some() {
        return r;
    }
    r.hour = Some(now.hour);
    if r.min.is_some() {
        return r;
    }
    r.min = Some(now.minute);
    if r.sec.is_some() {
        return r;
    }
    r.sec = Some(now.second);
    if r.nanos.is_some() {
        return r;
    }
    r.nanos = Some(now.nanos);
    r
}

/// The billionths of a second that the digits of a fraction stand for, to
/// the millionth: a million times 0.`digits`, rounded down, times a
/// thousand; 0 where the text holds anything but digits.
pub open spec fn fraction_nanos(digits: Seq<char>) -> int {
    if all_digits(digits) {
        scaled_fraction(1_000_000, digits) * 1000
    } else {
        0
    }
}

/// Computes [`fraction_nanos`].
pub fn nanos_of_fraction(digits: &str) -> (r: u32)
    ensures
        r == fraction_nanos(digits@),
        r < 1_000_000_000,
{
    let n: usize = digits.unicode_len();
    let run: usize = scan(CharClass::Digit, digits, 0);
    assert(digits@.skip(0) =~= digits@);
    proof {
        lemma_run_len(CharClass::Digit, digits@);
    }
    if run < n {
        return 0;
    }
    scale_fraction(1_000_000, digits) * 1000
}

/// What the surroundings of the machine told while one instant was
/// composed.
pub struct Ambient {
    /// The offset of the zone, seen from the year that was known first.
    pub first_offset: Option<i32>,
    /// The offset of the zone, seen from the year of the date.
    pub second_offset: Option<i32>,
    /// The offset of the machine's time zone now.
    pub local_now: i32,
    /// The offset of the machine's time zone at the date and time composed.
    pub local_then: Option<i32>,
}

/// Whether `o`, where it is there, is an offset of less than a day.
pub open spec fn short_offset(o: Option<i32>) -> bool {
    match o {
        Some(v) => -86400 < v < 86400,
        None => true,
    }
}

/// What holds of every surrounding: a zone that has its offset wherever the
/// machine stands resolves to that offset, and whatever offset the machine
/// tells is less than a day.
pub open spec fn agrees(zone: Option<Seq<char>>, a: Ambient) -> bool {
    &&& match zone {
        Some(z) => if known_zone(z) is Some {
            a.first_offset == known_zone(z) && a.second_offset == known_zone(z)
        } else {
            short_offset(a.first_offset) && short_offset(a.second_offset)
        },
        None => true,
    }
    &&& -86400 < a.local_now < 86400
    &&& short_offset(a.local_then)
}

/// Whether the fields hold neither a date nor a time: day of the year,
/// month, day, hour, minute, second and fraction are all missing.
pub open spec fn lacks_information(yday: Option<i32>, p: Parts) -> bool {
    yday is None && p.mon is None && p.mday is None && p.hour is None && p.min is None && p.sec
        is None && p.nanos is None
}

/// The reference instant told at the offset of the zone, or at that of the
/// machine's time zone where the zone has none; the instant itself where it
/// is at that offset already, or cannot be told there.
pub open spec fn reference(now: Instant, off: Option<i32>, local_now: i32) -> Instant {
    let target = match off {
        Some(o) => o,
        None => local_now,
    };
    if now.offset == target {
        now
    } else {
        match told_at(now, target) {
            Ok(t) => t,
            Err(_) => now,
        }
    }
}

/// The first of six fields that is too large to be carried through; none
/// is where all are below two to the power of 30.
pub open spec fn too_large(year: int, mon: int, mday: int, hour: int, min: int, sec: int) -> Option<
    Failure,
> {
    if !small(year) {
        Some(out_of_range("year"@, year))
    } else if !small(mon) {
        Some(out_of_range("month"@, mon))
    } else if !small(mday) {
        Some(out_of_range("day"@, mday))
    } else if !small(hour) {
        Some(out_of_range("hour"@, hour))
    } else if !small(min) {
        Some(out_of_range("minute"@, min))
    } else if !small(sec) {
        Some(out_of_range("second"@, sec))
    } else {
        None
    }
}

/// The fields with a default for each that is missing: 1970 for the year,
/// 1 for month and day, 0 for the others.
pub open spec fn settled(p: Parts) -> (int, int, int, int, int, int, int) {
    (
        match p.year {
            Some(v) => v as int,
            None => 1970,
        },
        match p.mon {
            Some(v) => v as int,
            None => 1,
        },
        match p.mday {
            Some(v) => v as int,
            None => 1,
        },
        match p.hour {
            Some(v) => v as int,
            None => 0,
        },
        match p.min {
            Some(v) => v as int,
            None => 0,
        },
        match p.sec {
            Some(v) => v as int,
            None => 0,
        },
        match p.nanos {
            Some(v) => v as int,
            None => 0,
        },
    )
}

/// The instant of a local time in a zone with the offset `o`: the fields
/// are moved to UTC, checked, and told at the offset again, or at offset
/// zero where the zone stands for UTC itself.
pub open spec fn resolved_with_offset(
    c: (int, int, int, int, int, int, int),
    zone: Seq<char>,
    o: i32,
) -> Result<Instant, Failure> {
    match too_large(c.0, c.1, c.2, c.3, c.4, c.5) {
        Some(f) => Err(f),
        None => {
            let m = moved(c.0, c.1, c.2, c.3, c.4, c.5, o as int);
            match checked_date(m.0, m.1, m.2) {
                Err(e) => Err(e),
                Ok(_) => match checked_time(m.3, m.4, m.5) {
                    Err(e) => Err(e),
                    Ok(_) => told_at(
                        Instant {
                            year: m.0 as i32,
                            month: m.1 as u32,
                            day: m.2 as u32,
                            hour: m.3 as u32,
                            minute: m.4 as u32,
                            second: m.5 as u32,
                            nanos: c.6 as u32,
                            offset: 0,
                        },
                        forced_offset(zone, o),
                    ),
                },
            }
        },
    }
}

/// The instant of a local time in the machine's time zone, which has the
/// offset `local_then` at that time, or none where the time does not exist
/// there.
pub open spec fn resolved_locally(
    c: (int, int, int, int, int, int, int),
    local_then: Option<i32>,
) -> Result<Instant, Failure> {
    match checked_date(c.0, c.1, c.2) {
        Err(e) => Err(e),
        Ok(_) => match checked_time(c.3, c.4, c.5) {
            Err(e) => Err(e),
            Ok(_) => match local_then {
                Some(o) => Ok(
                    Instant {
                        year: c.0 as i32,
                        month: c.1 as u32,
                        day: c.2 as u32,
                        hour: c.3 as u32,
                        minute: c.4 as u32,
                        second: c.5 as u32,
                        nanos: c.6 as u32,
                        offset: o,
                    },
                ),
                None => Err(Failure::Date),
            },
        },
    }
}

/// The instant that the fields `p`, the zone and the reference instant
/// make, in the surroundings `a`.
///
/// The zone is resolved first, seen from the year of the date or else of
/// the reference. The reference is told at the offset of the zone, and
/// fills the fields that are missing at the front. What is still missing
/// takes its least value. Where the year has changed by that, the zone is
/// resolved again. With an offset the fields are carried to UTC and checked;
/// without one they are checked and taken for local time.
#[verifier::opaque]
pub open spec fn composed_plain(
    p: Parts,
    zone: Option<Seq<char>>,
    now: Option<Instant>,
    a: Ambient,
) -> Result<Instant, Failure> {
    let off_year: Option<i32> = match p.year {
        Some(y) => Some(y),
        None => match now {
            Some(n) => Some(n.year),
            None => None,
        },
    };
    let first: Option<i32> = if off_year is Some && zone is Some {
        a.first_offset
    } else {
        None
    };
    let f = match now {
        Some(n) => filled(p, reference(n, first, a.local_now)),
        None => p,
    };
    let c = settled(f);
    let off: Option<i32> = if off_year != Some(c.0 as i32) {
        if zone is Some {
            a.second_offset
        } else {
            None
        }
    } else {
        first
    };
    match (off, zone) {
        (Some(o), Some(z)) => resolved_with_offset(c, z, o),
        _ => resolved_locally(c, a.local_then),
    }
}

/// Computes [`resolved_with_offset`].
pub fn resolve_with_offset(
    year: i32,
    mon: u32,
    mday: u32,
    hour: u32,
    min: u32,
    sec: u32,
    nanos: u32,
    zone: &str,
    o: i32,
) -> (r: Result<Instant, ParseError>)
    requires
        nanos < 1_000_000_000,
    ensures
        seen(r) == resolved_with_offset(
            (
                year as int,
                mon as int,
                mday as int,
                hour as int,
                min as int,
                sec as int,
                nanos as int,
            ),
            zone@,
            o,
        ),
        r matches Ok(t) ==> t.wf(),
{
    let limit: i64 = 0x4000_0000;
    if year as i64 <= -limit || year as i64 >= limit {
        return Err(range_error("year", year as i64));
    }
    if mon as i64 >= limit {
        return Err(range_error("month", mon as i64));
    }
    if mday as i64 >= limit {
        return Err(range_error("day", mday as i64));
    }
    if hour as i64 >= limit {
        return Err(range_error("hour", hour as i64));
    }
    if min as i64 >= limit {
        return Err(range_error("minute", min as i64));
    }
    if sec as i64 >= limit {
        return Err(range_error("second", sec as i64));
    }
    proof {
        lemma_small_moved_fits(
            year as int,
            mon as int,
            mday as int,
            hour as int,
            min as int,
            sec as int,
            o as int,
        );
    }
    let m = apply_offset(year, mon as i32, mday as i32, hour as i32, min as i32, sec as i32, o);
    let (year, month, day) = match validated_ymd(m.0, m.1, m.2) {
        Err(e) => {
            return Err(e);
        },
        Ok(date) => date,
    };
    let (hour, minute, second) = match validated_hms(m.3, m.4, m.5) {
        Err(e) => {
            return Err(e);
        },
        Ok(time) => time,
    };
    let utc = Instant {
        year: year,
        month: month,
        day: day,
        hour: hour,
        minute: minute,
        second: second,
        nanos: nanos,
        offset: 0,
    };
    force_zone(utc, zone, Some(o))
}

/// Checks the fields of a local time without an offset: the first part of
/// [`resolved_locally`].
pub fn check_local(year: i32, mon: u32, mday: u32, hour: u32, min: u32, sec: u32) -> (r: Result<
    (),
    ParseError,
>)
    ensures
        match r {
            Ok(_) => checked_date(year as int, mon as int, mday as int) is Ok && checked_time(
                hour as int,
                min as int,
                sec as int,
            ) is Ok,
            Err(e) => (checked_date(year as int, mon as int, mday as int) is Err || checked_time(
                hour as int,
                min as int,
                sec as int,
            ) is Err) && forall|c6: int, then: Option<i32>|
                #[trigger] resolved_locally(
                    (year as int, mon as int, mday as int, hour as int, min as int, sec as int, c6),
                    then,
                ) == Err::<Instant, Failure>(e@),
        },
{
    match check_date(year, mon as i64, mday as i64) {
        Err(e) => {
            return Err(e);
        },
        Ok(_) => {},
    }
    check_time(hour as i64, min as i64, sec as i64)
}

/// Makes the instant of a checked local time at the offset that the
/// machine's time zone has then: the last part of [`resolved_locally`].
pub fn local_instant(
    year: i32,
    mon: u32,
    mday: u32,
    hour: u32,
    min: u32,
    sec: u32,
    nanos: u32,
    then: Option<i32>,
) -> (r: Result<Instant, ParseError>)
    requires
        checked_date(year as int, mon as int, mday as int) is Ok,
        checked_time(hour as int, min as int, sec as int) is Ok,
        nanos < 1_000_000_000,
        then matches Some(o) ==> -86400 < o < 86400,
    ensures
        seen(r) == resolved_locally(
            (
                year as int,
                mon as int,
                mday as int,
                hour as int,
                min as int,
                sec as int,
                nanos as int,
            ),
            then,
        ),
        r matches Ok(t) ==> t.wf(),
{
    match then {
        Some(o) => Ok(
            Instant {
                year: year,
                month: mon,
                day: mday,
                hour: hour,
                minute: min,
                second: sec,
                nanos: nanos,
                offset: o,
            },
        ),
        None => Err(ParseError::DateError()),
    }
}

/// Tells the reference instant at the offset of the zone, or at `local_now`
/// where the zone has none: see [`reference`].
pub fn tell_reference(now: Instant, off: Option<i32>, local_now: i32) -> (r: Instant)
    requires
        now.wf(),
    ensures
        r == reference(now, off, local_now),
        r.wf(),
{
    let target: i32 = match off {
        Some(o) => o,
        None => local_now,
    };
    if off.is_some() && now.offset == target {
        return now;
    }
    match tell_at(now, target) {
        Ok(t) => t,
        Err(_) => now,
    }
}

/// Composes the fields `p`, the zone and the reference instant into one
/// instant: see [`composed_plain`].
///
/// The zone is resolved and the local offsets are asked of the machine as
/// far as they are needed. Whatever the machine tells, the result is what
/// [`composed_plain`] makes of it, and a zone that has its offset wherever
/// the machine stands resolves to that offset.
#[verifier::rlimit(40)]
pub fn make_plain_time(p: Parts, zone: Option<&str>, now: Option<Instant>) -> (r: Result<
    Instant,
    ParseError,
>)
    requires
        now matches Some(n) ==> n.wf(),
        p.nanos matches Some(v) ==> v < 1_000_000_000,
    ensures
        exists|a: Ambient|
            agrees(zone.deep_view(), a) && seen(r) == #[trigger] composed_plain(
                p,
                zone.deep_view(),
                now,
                a,
            ),
        r matches Ok(t) ==> t.wf(),
{
    let off_year: Option<i32> = match p.year {
        Some(y) => Some(y),
        None => match now {
            Some(n) => Some(n.year),
            None => None,
        },
    };
    let ghost known: Option<i32> = match zone.deep_view() {
        Some(z) => known_zone(z),
        None => None,
    };
    let ghost mut a = Ambient {
        first_offset: known,
        second_offset: known,
        local_now: 0,
        local_then: None,
    };
    let mut first: Option<i32> = None;
    if off_year.is_some() {
        match zone {
            Some(z) => {
                first = zone_offset(z, off_year);
                proof {
                    a = Ambient { first_offset: first, ..a };
                }
            },
            None => {},
        }
    }
    let f: Parts = match now {
        Some(n) => {
            let local_now: i32 = if first.is_none() {
                current_instant().offset
            } else {
                0
            };
            proof {
                a = Ambient { local_now: local_now, ..a };
            }
            fill_from_reference(p, &tell_reference(n, first, local_now))
        },
        None => p,
    };
    let year: i32 = match f.year {
        Some(v) => v,
        None => 1970,
    };
    let mon: u32 = match f.mon {
        Some(v) => v,
        None => 1,
    };
    let mday: u32 = match f.mday {
        Some(v) => v,
        None => 1,
    };
    let hour: u32 = match f.hour {
        Some(v) => v,
        None => 0,
    };
    let min: u32 = match f.min {
        Some(v) => v,
        None => 0,
    };
    let sec: u32 = match f.sec {
        Some(v) => v,
        None => 0,
    };
    let nanos: u32 = match f.nanos {
        Some(v) => v,
        None => 0,
    };
    let same_year: bool = match off_year {
        Some(y) => y == year,
        None => false,
    };
    let off: Option<i32> = if same_year {
        first
    } else {
        match zone {
            Some(z) => {
                let second = zone_offset(z, Some(year));
                proof {
                    a = Ambient { second_offset: second, ..a };
                }
                second
            },
            None => None,
        }
    };
    let r = match (off, zone) {
        (Some(o), Some(z)) => resolve_with_offset(year, mon, mday, hour, min, sec, nanos, z, o),
        _ => match check_local(year, mon, mday, hour, min, sec) {
            Err(e) => Err(e),
            Ok(_) => {
                let then: Option<i32> = local_offset_at(year, mon, mday, hour, min, sec);
                proof {
                    a = Ambient { local_then: then, ..a };
                }
                local_instant(year, mon, mday, hour, min, sec, nanos, then)
            },
        },
    };
    assert(seen(r) == composed_plain(p, zone.deep_view(), now, a)) by {
        reveal(composed_plain);
    }
    r
}

/// The month and the day of the month for the day `yd` of the year, found
/// from a first guess whose instant is `t`: the guess counts 31 days for
/// every month, and the day then walks forward by what the guess fell
/// short, into the next month where it leaves its own. The length of the
/// month is that of the year given, or of the year of `t` where none is.
pub open spec fn walked(yd: int, year: Option<i32>, t: Instant) -> Result<(int, int), Failure> {
    let mon = (yd - 1) / 31 + 1;
    let day = (yd - 1) % 31 + 1 + (yd - day_of_year(t.year as int, t.month as int, t.day as int));
    let y: int = match year {
        Some(v) => v as int,
        None => t.year as int,
    };
    if day < 1 {
        Err(out_of_range("day"@, day))
    } else if day > 28 && day > days_in_month(y, mon) {
        if mon + 1 > 12 {
            Err(out_of_range("yday"@, yd))
        } else {
            Ok((mon + 1, day - days_in_month(y, mon)))
        }
    } else {
        Ok((mon, day))
    }
}

/// The fields `p` with month and day set.
pub open spec fn with_day(p: Parts, mon: int, mday: int) -> Parts {
    Parts { mon: Some(mon as u32), mday: Some(mday as u32), ..p }
}

/// The instant that the fields, the day of the year, the zone and the
/// reference instant make, in the surroundings `a` and, for a second turn,
/// `b`.
///
/// Without a date and a time there is nothing to compose. A day of the
/// year, which must be from 1 to 366, is resolved to month and day by a
/// first guess and a walk forward: see [`walked`].
#[verifier::opaque]
pub open spec fn composed(
    date: Seq<char>,
    yday: Option<i32>,
    p: Parts,
    zone: Option<Seq<char>>,
    now: Option<Instant>,
    a: Ambient,
    b: Ambient,
) -> Result<Instant, Failure> {
    if lacks_information(yday, p) {
        Err(Failure::MissingTimeInformation(date))
    } else {
        match yday {
            None => composed_plain(p, zone, now, a),
            Some(yd) => if !(1 <= yd <= 366) {
                Err(out_of_range("yday"@, yd as int))
            } else {
                match composed_plain(
                    with_day(p, (yd - 1) / 31 + 1, (yd - 1) % 31 + 1),
                    zone,
                    now,
                    a,
                ) {
                    Err(e) => Err(e),
                    Ok(t) => if yd == day_of_year(t.year as int, t.month as int, t.day as int) {
                        Ok(t)
                    } else {
                        match walked(yd as int, p.year, t) {
                            Err(e) => Err(e),
                            Ok(md) => composed_plain(with_day(p, md.0, md.1), zone, now, b),
                        }
                    },
                }
            },
        }
    }
}

/// Surroundings that were not asked anything, for the zone given.
pub open spec fn unasked(zone: Option<Seq<char>>) -> Ambient {
    let known: Option<i32> = match zone {
        Some(z) => known_zone(z),
        None => None,
    };
    Ambient { first_offset: known, second_offset: known, local_now: 0, local_then: None }
}

/// Computes [`walked`].
pub fn walk_forward(yd: i32, year: Option<i32>, t: &Instant) -> (r: Result<(u32, u32), ParseError>)
    requires
        1 <= yd <= 366,
        t.wf(),
    ensures
        match r {
            Ok(md) => walked(yd as int, year, *t) == Ok::<(int, int), Failure>(
                (md.0 as int, md.1 as int),
            ),
            Err(e) => walked(yd as int, year, *t) == Err::<(int, int), Failure>(e@),
        },
{
    let mon: i32 = (yd - 1) / 31 + 1;
    let day: i32 = (yd - 1) % 31 + 1 + (yd - ordinal(t.year, t.month, t.day));
    let y: i32 = match year {
        Some(v) => v,
        None => t.year,
    };
    if day < 1 {
        return Err(range_error("day", day as i64));
    }
    if day > 28 {
        let len: i32 = match month_days(y, mon) {
            Ok(days) => days,
            Err(e) => {
                return Err(e);
            },
        };
        if day > len {
            if mon + 1 > 12 {
                return Err(range_error("yday", yd as i64));
            }
            return Ok(((mon + 1) as u32, (day - len) as u32));
        }
    }
    Ok((mon as u32, day as u32))
}

/// The fields as they are handed to [`make_time`], with the fraction of
/// the second in billionths.
pub open spec fn parts_of(
    year: Option<i32>,
    mon: Option<u32>,
    mday: Option<u32>,
    hour: Option<u32>,
    min: Option<u32>,
    sec: Option<u32>,
    sec_fraction: Option<Seq<char>>,
) -> Parts {
    Parts {
        year: year,
        mon: mon,
        mday: mday,
        hour: hour,
        min: min,
        sec: sec,
        nanos: match sec_fraction {
            Some(digits) => Some(fraction_nanos(digits) as u32),
            None => None,
        },
    }
}

/// Composes the fields found in the text `date`, the zone and the
/// reference instant `now` into one instant.
///
/// Fails where the fields hold neither a date nor a time, or where a field
/// is outside its range once the fields that are missing were filled in and
/// the offset of the zone was carried through them. The digits of
/// `sec_fraction` count to the millionth of a second. Whatever the machine
/// tells of its own time zone, the result is what [`composed`] makes of
/// it.
pub fn make_time(
    date: &str,
    year: Option<i32>,
    yday: Option<i32>,
    mon: Option<u32>,
    mday: Option<u32>,
    hour: Option<u32>,
    min: Option<u32>,
    sec: Option<u32>,
    sec_fraction: Option<&str>,
    zone: Option<&str>,
    now: Option<Instant>,
) -> (r: Result<Instant, ParseError>)
    requires
        now matches Some(n) ==> n.wf(),
    ensures
        exists|a: Ambient, b: Ambient|
            agrees(zone.deep_view(), a) && agrees(zone.deep_view(), b) && seen(r)
                == #[trigger] composed(
                date@,
                yday,
                parts_of(year, mon, mday, hour, min, sec, sec_fraction.deep_view()),
                zone.deep_view(),
                now,
                a,
                b,
            ),
        r matches Ok(t) ==> t.wf(),
{
    proof {
        reveal(composed);
    }
    let p = Parts {
        year: year,
        mon: mon,
        mday: mday,
        hour: hour,
        min: min,
        sec: sec,
        nanos: match sec_fraction {
            Some(digits) => Some(nanos_of_fraction(digits)),
            None => None,
        },
    };
    let ghost idle = unasked(zone.deep_view());
    if yday.is_none() && mon.is_none() && mday.is_none() && hour.is_none() && min.is_none()
        && sec.is_none() && sec_fraction.is_none() {
        let r = Err(ParseError::MissingTimeInformationError(String::from_str(date)));
        assert(seen(r) == composed(date@, yday, p, zone.deep_view(), now, idle, idle));
        return r;
    }
    let yd: i32 = match yday {
        None => {
            let r = make_plain_time(p, zone, now);
            proof {
                let a = choose|a: Ambient|
                    agrees(zone.deep_view(), a) && seen(r) == #[trigger] composed_plain(
                        p,
                        zone.deep_view(),
                        now,
                        a,
                    );
                assert(seen(r) == composed(date@, yday, p, zone.deep_view(), now, a, a));
            }
            return r;
        },
        Some(yd) => yd,
    };
    if yd < 1 || yd > 366 {
        let r = Err(range_error("yday", yd as i64));
        assert(seen(r) == composed(date@, yday, p, zone.deep_view(), now, idle, idle));
        return r;
    }
    let guess = Parts {
        mon: Some(((yd - 1) / 31 + 1) as u32),
        mday: Some(((yd - 1) % 31 + 1) as u32),
        ..p
    };
    let first = make_plain_time(guess, zone, now);
    let ghost a = choose|a: Ambient|
        agrees(zone.deep_view(), a) && seen(first) == #[trigger] composed_plain(
            guess,
            zone.deep_view(),
            now,
            a,
        );
    let t: Instant = match first {
        Err(e) => {
            let r = Err(e);
            assert(seen(r) == composed(date@, yday, p, zone.deep_view(), now, a, a));
            return r;
        },
        Ok(t) => t,
    };
    if yd == ordinal(t.year, t.month, t.day) {
        let r = Ok(t);
        assert(seen(r) == composed(date@, yday, p, zone.deep_view(), now, a, a));
        return r;
    }
    let (m2, d2) = match walk_forward(yd, year, &t) {
        Err(e) => {
            let r = Err(e);
            assert(seen(r) == composed(date@, yday, p, zone.deep_view(), now, a, a));
            return r;
        },
        Ok(md) => md,
    };
    let second = Parts { mon: Some(m2), mday: Some(d2), ..p };
    let r = make_plain_time(second, zone, now);
    proof {
        let b = choose|b: Ambient|
            agrees(zone.deep_view(), b) && seen(r) == #[trigger] composed_plain(
                second,
                zone.deep_view(),
                now,
                b,
            );
        assert(seen(r) == composed(date@, yday, p, zone.deep_view(), now, a, b));
    }
    r
}

/// A field of the record as a signed number of 32 bits; the failure that
/// names the field where the number does not fit.
pub open spec fn narrow_signed(field: Seq<char>, v: Option<i64>) -> Result<Option<i32>, Failure> {
    match v {
        Some(n) => if i32::MIN <= n <= i32::MAX {
            Ok(Some(n as i32))
        } else {
            Err(out_of_range(field, n as int))
        },
        None => Ok(None),
    }
}

/// A field of the record as an unsigned number of 32 bits; the failure
/// that names the field where the number does not fit.
pub open spec fn narrow_unsigned(field: Seq<char>, v: Option<u64>) -> Result<Option<u32>, Failure> {
    match v {
        Some(n) => if n <= u32::MAX {
            Ok(Some(n as u32))
        } else {
            Err(out_of_range(field, n as int))
        },
        None => Ok(None),
    }
}

/// Computes [`narrow_signed`].
pub fn to_signed(field: &str, v: Option<i64>) -> (r: Result<Option<i32>, ParseError>)
    ensures
        match r {
            Ok(n) => narrow_signed(field@, v) == Ok::<Option<i32>, Failure>(n),
            Err(e) => narrow_signed(field@, v) == Err::<Option<i32>, Failure>(e@),
        },
{
    match v {
        Some(n) => {
            if -2147483648 <= n && n <= 2147483647 {
                Ok(Some(n as i32))
            } else {
                Err(range_error(field, n))
            }
        },
        None => Ok(None),
    }
}

/// Computes [`narrow_unsigned`].
pub fn to_unsigned(field: &str, v: Option<u64>) -> (r: Result<Option<u32>, ParseError>)
    ensures
        match r {
            Ok(n) => narrow_unsigned(field@, v) == Ok::<Option<u32>, Failure>(n),
            Err(e) => narrow_unsigned(field@, v) == Err::<Option<u32>, Failure>(e@),
        },
{
    match v {
        Some(n) => {
            if n <= 4294967295 {
                Ok(Some(n as u32))
            } else {
                Err(ParseError::OutOfRangeError(String::from_str(field), unsigned_decimal(n)))
            }
        },
        None => Ok(None),
    }
}

/// The instant that the record `f` of the text `date` makes with the year
/// `year` and the reference instant `now`, in the surroundings `a` and `b`:
/// the fields are brought to 32 bits, in the order day of the year, month,
/// day, hour, minute, second, and composed.
#[verifier::opaque]
pub open spec fn composed_fields(
    date: Seq<char>,
    f: Fields,
    year: Option<i32>,
    now: Instant,
    a: Ambient,
    b: Ambient,
) -> Result<Instant, Failure> {
    match narrow_signed("yday"@, f.yday) {
        Err(e) => Err(e),
        Ok(yday) => match narrow_unsigned("month"@, f.mon) {
            Err(e) => Err(e),
            Ok(mon) => match narrow_unsigned("day"@, f.mday) {
                Err(e) => Err(e),
                Ok(mday) => match narrow_unsigned("hour"@, f.hour) {
                    Err(e) => Err(e),
                    Ok(hour) => match narrow_unsigned("minute"@, f.min) {
                        Err(e) => Err(e),
                        Ok(min) => match narrow_unsigned("second"@, f.sec) {
                            Err(e) => Err(e),
                            Ok(sec) => composed(
                                date,
                                yday,
                                parts_of(year, mon, mday, hour, min, sec, f.sec_fraction),
                                f.zone,
                                Some(now),
                                a,
                                b,
                            ),
                        },
                    },
                },
            },
        },
    }
}

/// Composes the record `d`, which was extracted from the text `date`, into
/// an instant, with `year` in the place of its year: see
/// [`composed_fields`].
pub fn compose_fields(date: &str, d: &DateTime, year: Option<i32>, now: Instant) -> (r: Result<
    Instant,
    ParseError,
>)
    requires
        now.wf(),
    ensures
        exists|a: Ambient, b: Ambient|
            agrees(d@.zone, a) && agrees(d@.zone, b) && seen(r) == #[trigger] composed_fields(
                date@,
                d@,
                year,
                now,
                a,
                b,
            ),
        r matches Ok(t) ==> t.wf(),
{
    proof {
        reveal(composed_fields);
    }
    let ghost idle = unasked(d@.zone);
    let yday: Option<i32> = match to_signed("yday", d.yday) {
        Ok(v) => v,
        Err(e) => {
            let r = Err(e);
            assert(seen(r) == composed_fields(date@, d@, year, now, idle, idle));
            return r;
        },
    };
    let mon: Option<u32> = match to_unsigned("month", d.mon) {
        Ok(v) => v,
        Err(e) => {
            let r = Err(e);
            assert(seen(r) == composed_fields(date@, d@, year, now, idle, idle));
            return r;
        },
    };
    let mday: Option<u32> = match to_unsigned("day", d.mday) {
        Ok(v) => v,
        Err(e) => {
            let r = Err(e);
            assert(seen(r) == composed_fields(date@, d@, year, now, idle, idle));
            return r;
        },
    };
    let hour: Option<u32> = match to_unsigned("hour", d.hour) {
        Ok(v) => v,
        Err(e) => {
            let r = Err(e);
            assert(seen(r) == composed_fields(date@, d@, year, now, idle, idle));
            return r;
        },
    };
    let min: Option<u32> = match to_unsigned("minute", d.min) {
        Ok(v) => v,
        Err(e) => {
            let r = Err(e);
            assert(seen(r) == composed_fields(date@, d@, year, now, idle, idle));
            return r;
        },
    };
    let sec: Option<u32> = match to_unsigned("second", d.sec) {
        Ok(v) => v,
        Err(e) => {
            let r = Err(e);
            assert(seen(r) == composed_fields(date@, d@, year, now, idle, idle));
            return r;
        },
    };
    let fraction: Option<&str> = match &d.sec_fraction {
        Some(f) => Some(f.as_str()),
        None => None,
    };
    let zone: Option<&str> = match &d.zone {
        Some(z) => Some(z.as_str()),
        None => None,
    };
    let r = make_time(date, year, yday, mon, mday, hour, min, sec, fraction, zone, Some(now));
    proof {
        let p = parts_of(year, mon, mday, hour, min, sec, d@.sec_fraction);
        let (a, b) = choose|a: Ambient, b: Ambient|
            agrees(d@.zone, a) && agrees(d@.zone, b) && seen(r) == #[trigger] composed(
                date@,
                yday,
                p,
                d@.zone,
                Some(now),
                a,
                b,
            );
        assert(seen(r) == composed_fields(date@, d@, year, now, a, b));
    }
    r
}

/// Whether `y` may stand in the place of the year `y0` of the record: it is
/// `y0` itself where no mapping is given, else what the mapping makes of
/// it.
pub open spec fn year_rule<F: Fn(i32) -> i32>(
    year_fn: Option<F>,
    y0: Option<i32>,
    y: Option<i32>,
) -> bool {
    match (year_fn, y0) {
        (Some(g), Some(v)) => y matches Some(w) && call_ensures(g, (v,), w),
        _ => y == y0,
    }
}

/// Makes an instant of the text `date`, a year of two digits completed to
/// one of four. The fields that the text does not give are taken from
/// `now`, or from the current time where no `now` is given, as far as they
/// stand in front of the first field that the text does give.
pub fn parse_with_reference(date: &str, now: Option<Instant>) -> (r: Result<Instant, ParseError>)
    requires
        now matches Some(n) ==> n.wf(),
    ensures
        match narrow_signed("year"@, parsed(date@, true).0.year) {
            Err(e) => seen(r) == Err::<Instant, Failure>(e),
            Ok(y0) => exists|n: Instant, a: Ambient, b: Ambient|
                (now matches Some(x) ==> n == x) && n.wf() && agrees(
                    parsed(date@, true).0.zone,
                    a,
                ) && agrees(parsed(date@, true).0.zone, b) && seen(r)
                    == #[trigger] composed_fields(date@, parsed(date@, true).0, y0, n, a, b),
        },
        r matches Ok(t) ==> t.wf(),
{
    let n: Instant = match now {
        Some(x) => x,
        None => current_instant(),
    };
    let d: DateTime = date_parse(date, true);
    let y0: Option<i32> = match to_signed("year", d.year) {
        Ok(v) => v,
        Err(e) => {
            return Err(e);
        },
    };
    let r = compose_fields(date, &d, y0, n);
    proof {
        let (a, b) = choose|a: Ambient, b: Ambient|
            agrees(d@.zone, a) && agrees(d@.zone, b) && seen(r) == #[trigger] composed_fields(
                date@,
                d@,
                y0,
                n,
                a,
                b,
            );
    }
    r
}

/// Makes an instant of the text `date`.
///
/// The fields that the text does not give are taken from `now`, or from the
/// current time where no `now` is given, as far as they stand in front of
/// the first field that the text does give. With `year_fn` the year of the
/// text is handed through it; without, a year of two digits is completed to
/// one of four.
pub fn parse_with_custom_time_and_year<F: Fn(i32) -> i32>(
    date: &str,
    now: Option<Instant>,
    year_fn: Option<F>,
) -> (r: Result<Instant, ParseError>)
    requires
        now matches Some(n) ==> n.wf(),
        year_fn matches Some(g) ==> forall|y: i32| call_requires(g, (y,)),
    ensures
        match narrow_signed("year"@, parsed(date@, year_fn is None).0.year) {
            Err(e) => seen(r) == Err::<Instant, Failure>(e),
            Ok(y0) => exists|n: Instant, y: Option<i32>, a: Ambient, b: Ambient|
                (now matches Some(x) ==> n == x) && n.wf() && year_rule(year_fn, y0, y) && agrees(
                    parsed(date@, year_fn is None).0.zone,
                    a,
                ) && agrees(parsed(date@, year_fn is None).0.zone, b) && seen(r)
                    == #[trigger] composed_fields(
                    date@,
                    parsed(date@, year_fn is None).0,
                    y,
                    n,
                    a,
                    b,
                ),
        },
        r matches Ok(t) ==> t.wf(),
{
    let mapping: F = match year_fn {
        Some(g) => g,
        None => {
            let r = parse_with_reference(date, now);
            proof {
                match narrow_signed("year"@, parsed(date@, true).0.year) {
                    Ok(y0) => {
                        let (n, a, b) = choose|n: Instant, a: Ambient, b: Ambient|
                            (now matches Some(x) ==> n == x) && n.wf() && agrees(
                                parsed(date@, true).0.zone,
                                a,
                            ) && agrees(parsed(date@, true).0.zone, b) && seen(r)
                                == #[trigger] composed_fields(
                                date@,
                                parsed(date@, true).0,
                                y0,
                                n,
                                a,
                                b,
                            );
                        assert(year_rule(year_fn, y0, y0));
                    },
                    Err(_) => {},
                }
            }
            return r;
        },
    };
    let n: Instant = match now {
        Some(x) => x,
        None => current_instant(),
    };
    let d: DateTime = date_parse(date, false);
    let y0: Option<i32> = match to_signed("year", d.year) {
        Ok(v) => v,
        Err(e) => {
            return Err(e);
        },
    };
    let y: Option<i32> = match y0 {
        Some(v) => Some(mapping(v)),
        None => None,
    };
    let r = compose_fields(date, &d, y, n);
    proof {
        let (a, b) = choose|a: Ambient, b: Ambient|
            agrees(d@.zone, a) && agrees(d@.zone, b) && seen(r) == #[trigger] composed_fields(
                date@,
                d@,
                y,
                n,
                a,
                b,
            );
        assert(year_rule(year_fn, y0, y));
    }
    r
}

/// Makes an instant of the text `date`, with the current time for what the
/// text does not give, and a year of two digits completed to one of four.
pub fn parse(date: &str) -> (r: Result<Instant, ParseError>)
    ensures
        match narrow_signed("year"@, parsed(date@, true).0.year) {
            Err(e) => seen(r) == Err::<Instant, Failure>(e),
            Ok(y0) => exists|n: Instant, a: Ambient, b: Ambient|
                n.wf() && agrees(parsed(date@, true).0.zone, a) && agrees(
                    parsed(date@, true).0.zone,
                    b,
                ) && seen(r) == #[trigger] composed_fields(
                    date@,
                    parsed(date@, true).0,
                    y0,
                    n,
                    a,
                    b,
                ),
        },
        r matches Ok(t) ==> t.wf(),
{
    parse_with_reference(date, None)
}

/// The instant of a date and a time of day at the offset `offset`, made by
/// way of the `chrono` crate. Whatever keeps the instant from being made is
/// a date error: a field outside its range, a missing offset, a date that
/// cannot be represented.
pub open spec fn placed(
    year: int,
    month: int,
    day: int,
    hour: int,
    min: int,
    sec: int,
    offset: Option<i32>,
) -> Result<Instant, Failure> {
    if checked_date(year, month, day) is Err || checked_time(hour, min, sec) is Err {
        Err(Failure::Date)
    } else {
        match offset {
            None => Err(Failure::Date),
            Some(o) => match told_at(
                Instant {
                    year: year as i32,
                    month: month as u32,
                    day: day as u32,
                    hour: hour as u32,
                    minute: min as u32,
                    second: sec as u32,
                    nanos: 0,
                    offset: o,
                },
                o,
            ) {
                Ok(t) => Ok(t),
                Err(_) => Err(Failure::Date),
            },
        }
    }
}

/// `v`, or `otherwise` where it is missing.
pub open spec fn or_default(v: Option<u32>, otherwise: u32) -> int {
    match v {
        Some(x) => x as int,
        None => otherwise as int,
    }
}

/// What [`local`] returns for the year `y` and the offset `o`.
pub open spec fn local_result(
    y: i32,
    month: Option<u32>,
    day: Option<u32>,
    hour: Option<u32>,
    min: Option<u32>,
    sec: Option<u32>,
    o: Option<i32>,
) -> Result<Instant, Failure> {
    placed(
        y as int,
        or_default(month, 1),
        or_default(day, 1),
        or_default(hour, 0),
        or_default(min, 0),
        or_default(sec, 0),
        o,
    )
}

/// Whether the year `y` and the offset `o` may stand for what [`local`] was
/// given: the year is the one given, if any, and the offset is the one that
/// `tz` writes, if there is a `tz`.
pub open spec fn local_choice(
    year: Option<i32>,
    tz: Option<Seq<char>>,
    y: i32,
    o: Option<i32>,
) -> bool {
    &&& year matches Some(v) ==> y == v
    &&& tz matches Some(t) ==> as_int(o) == fixed_offset_text(t)
}

/// The instant of the date and time of day given, at the offset that `tz`
/// writes, as in `+09:00`, or in the machine's time zone where no `tz` is
/// given. A year that is missing is the current year; any other field that
/// is missing takes its least value.
///
/// `tz` must write an offset. Fails with a date error where the fields do
/// not make an instant.
pub fn local(
    year: Option<i32>,
    month: Option<u32>,
    day: Option<u32>,
    hour: Option<u32>,
    min: Option<u32>,
    sec: Option<u32>,
    tz: Option<&str>,
) -> (r: Result<Instant, ParseError>)
    requires
        tz matches Some(t) ==> fixed_offset_text(t@) is Some,
    ensures
        exists|y: i32, o: Option<i32>|
            local_choice(year, tz.deep_view(), y, o) && seen(r) == #[trigger] local_result(
                y,
                month,
                day,
                hour,
                min,
                sec,
                o,
            ),
        r matches Ok(t) ==> t.wf(),
{
    let y: i32 = match year {
        Some(v) => v,
        None => current_instant().year,
    };
    let m: u32 = match month {
        Some(v) => v,
        None => 1,
    };
    let d: u32 = match day {
        Some(v) => v,
        None => 1,
    };
    let h: u32 = match hour {
        Some(v) => v,
        None => 0,
    };
    let mi: u32 = match min {
        Some(v) => v,
        None => 0,
    };
    let s: u32 = match sec {
        Some(v) => v,
        None => 0,
    };
    let o: Option<i32> = match tz {
        Some(t) => read_fixed_offset(t),
        None => match local_zone_at(y, m, d, h, mi, s) {
            Some(z) => Some(z.1),
            None => None,
        },
    };
    let r = match check_local(y, m, d, h, mi, s) {
        Err(_) => Err(ParseError::DateError()),
        Ok(_) => match o {
            None => Err(ParseError::DateError()),
            Some(offset) => {
                let at = Instant {
                    year: y,
                    month: m,
                    day: d,
                    hour: h,
                    minute: mi,
                    second: s,
                    nanos: 0,
                    offset: offset,
                };
                match tell_at(at, offset) {
                    Ok(t) => Ok(t),
                    Err(_) => Err(ParseError::DateError()),
                }
            },
        },
    };
    assert(local_choice(year, tz.deep_view(), y, o));
    assert(seen(r) == local_result(y, month, day, hour, min, sec, o));
    r
}

/// The instant of the date and time of day given, as [`local`] makes it,
/// or `None` where `tz` writes no offset.
pub fn try_local(
    year: Option<i32>,
    month: Option<u32>,
    day: Option<u32>,
    hour: Option<u32>,
    min: Option<u32>,
    sec: Option<u32>,
    tz: Option<&str>,
) -> (r: Option<Result<Instant, ParseError>>)
    ensures
        r is None <==> (tz matches Some(t) && fixed_offset_text(t@) is None),
        r matches Some(x) ==> exists|y: i32, o: Option<i32>|
            local_choice(year, tz.deep_view(), y, o) && seen(x) == #[trigger] local_result(
                y,
                month,
                day,
                hour,
                min,
                sec,
                o,
            ),
        r matches Some(Ok(t)) ==> t.wf(),
{
    match tz {
        Some(t) => {
            if read_fixed_offset(t).is_none() {
                return None;
            }
        },
        None => {},
    }
    Some(local(year, month, day, hour, min, sec, tz))
}

impl Instant {
    /// This instant told at offset zero, in UTC.
    pub fn to_utc(&self) -> (r: Result<Instant, ParseError>)
        requires
            self.wf(),
        ensures
            seen(r) == told_at(*self, 0),
            r matches Ok(t) ==> t.wf() && t.offset == 0,
    {
        tell_at(*self, 0)
    }
}

} // verus!
