//! Reading a time-zone token as an offset from UTC in seconds.

use vstd::arithmetic::power::pow;
use vstd::prelude::*;
use vstd::string::*;
use crate::date_parser::pattern::{first_match, get_group, group, groups_of};
use crate::date_parser::text::{
    all_digits, digits_value, is_char, lemma_run_len, number_i64, number_part, number_up_to,
    parse_number, parse_signed, scale_fraction, scaled_fraction, slice_number_part, CharClass,
};
use crate::date_parser::zonetab::{named_offset, zone_offset};

verus! {

/// A zone name that ends in "standard time": group 1 is what stands in front.
pub const STANDARD_TIME_SUFFIX: &'static str = r"(.*)\s*(?i:standard time)";

/// A zone name that ends in "daylight time": group 1 is what stands in front.
pub const DAYLIGHT_TIME_SUFFIX: &'static str = r"(.*)\s*(?i:daylight time)";

/// A zone name that ends in "dst": group 1 is what stands in front.
pub const DST_SUFFIX: &'static str = r"(.*)\s*(?i:dst)";

/// An optional "gmt" or "utc", then group 1: the characters up to the next
/// white space.
pub const GMT_UTC_PREFIX: &'static str = r"(?i:gmt|utc)?(\S*)";

/// The largest number that a run of digits may write.
pub const NUMBER_LIMIT: u64 = 9223372036854775807;

/// Group `i` of `groups`, or `otherwise` where that group is not there.
pub open spec fn captured_or(groups: Seq<Option<Seq<char>>>, i: int, otherwise: Seq<char>) -> Seq<
    char,
> {
    match group(groups, i) {
        Some(s) => s,
        None => otherwise,
    }
}

/// Group 1 of the first match of `pattern` in `text`, letter case set aside;
/// `text` where the match has no such group, `None` without a match.
pub open spec fn front_part(pattern: Seq<char>, text: Seq<char>) -> Option<Seq<char>> {
    match groups_of(pattern, true, false, text) {
        Some(g) => Some(captured_or(g, 1, text)),
        None => None,
    }
}

/// A zone name without its ending "standard time", "daylight time" or "dst",
/// and whether the ending names daylight saving time.
pub open spec fn without_suffix(zone: Seq<char>) -> (Seq<char>, bool) {
    match front_part(STANDARD_TIME_SUFFIX@, zone) {
        Some(s) => (s, false),
        None => match front_part(DAYLIGHT_TIME_SUFFIX@, zone) {
            Some(s) => (s, true),
            None => match front_part(DST_SUFFIX@, zone) {
                Some(s) => (s, true),
                None => (zone, false),
            },
        },
    }
}

/// A zone without a leading "gmt" or "utc".
pub open spec fn without_prefix(zone: Seq<char>) -> Seq<char> {
    match front_part(GMT_UTC_PREFIX@, zone) {
        Some(s) => s,
        None => zone,
    }
}

/// The whole seconds in the fraction of an hour whose decimal digits are
/// `digits`: 3600 times 0.`digits`, rounded down.
pub open spec fn hour_fraction(digits: Seq<char>) -> int {
    scaled_fraction(3600, digits)
}

/// The number that `s` writes, or 0 where it writes none.
pub open spec fn number_or_zero(s: Seq<char>) -> int {
    match number_up_to(s, NUMBER_LIMIT) {
        Some(v) => v as int,
        None => 0,
    }
}

/// The seconds of `hours` hours and what follows a colon: minutes and,
/// behind a second colon, seconds.
pub open spec fn colon_seconds(hours: int, rest: Seq<char>) -> int {
    let (mins_text, sep, last) = number_part(rest);
    let secs: int = if sep == seq![':'] {
        match number_i64(last) {
            Some(x) => x as int,
            None => 0,
        }
    } else {
        0
    };
    secs + 60 * number_or_zero(mins_text) + 3600 * hours
}

/// The seconds of a run of digits without separators. One digit is hours.
/// Longer runs are read in pairs from the left, a run of odd length starting
/// with a single digit: hours, then minutes, then seconds.
pub open spec fn packed_seconds(digits: Seq<char>, hours: int) -> int {
    let l = digits.len() as int;
    if l < 2 {
        hours * 3600
    } else {
        let k = 2 - l % 2;
        let h = number_or_zero(digits.subrange(0, k));
        let m = if l >= 3 {
            number_or_zero(digits.subrange(k, k + 2))
        } else {
            0
        };
        let s = if l >= 5 {
            number_or_zero(digits.subrange(k + 2, k + 4))
        } else {
            0
        };
        h * 3600 + m * 60 + s
    }
}

/// `v` as a 64-bit number, where it fits.
pub open spec fn fitting(v: int) -> Option<i64> {
    if i64::MIN <= v <= i64::MAX {
        Some(v as i64)
    } else {
        None
    }
}

/// The offset in seconds that a numeric zone writes: a sign, then hours,
/// followed by `:MM`, `:MM:SS`, a decimal fraction of an hour behind `.` or
/// `,`, or more digits for minutes and seconds. `None` where `s` does not
/// start with a sign and a number, or the offset does not fit in 64 bits.
pub open spec fn numeric_zone(s: Seq<char>) -> Option<i64> {
    if s.len() == 0 || (s[0] != '+' && s[0] != '-') {
        None
    } else {
        let sign: int = if s[0] == '-' {
            -1
        } else {
            1
        };
        let (hours_text, sep, rest) = number_part(s.skip(1));
        match number_up_to(hours_text, NUMBER_LIMIT) {
            None => None,
            Some(hours) => {
                if sep == seq![':'] {
                    fitting(sign * colon_seconds(hours as int, rest))
                } else if sep == seq![','] || sep == seq!['.'] {
                    fitting(sign * (hours * 3600 + hour_fraction(number_part(rest).0)))
                } else {
                    fitting(sign * packed_seconds(hours_text, hours as int))
                }
            },
        }
    }
}

/// The offset of a zone whose daylight-saving ending, if any, is already
/// taken off: the table's offset for `residual`, one hour more under
/// daylight saving time; for a zone that the table does not hold, the offset
/// that `stripped` writes in numbers.
pub open spec fn residual_offset(residual: Seq<char>, dst: bool, stripped: Seq<char>) -> Option<
    i64,
> {
    match named_offset(residual) {
        Some(v) => Some(
            (if dst {
                v + 3600
            } else {
                v as int
            }) as i64,
        ),
        None => numeric_zone(stripped),
    }
}

/// The offset from UTC, in seconds, of the zone token `zone`.
pub open spec fn zone_to_diff(zone: Seq<char>) -> Option<i64> {
    let (residual, dst) = without_suffix(zone);
    residual_offset(residual, dst, without_prefix(residual))
}

/// Computes [`hour_fraction`]: for digits that write the number `v`, 3600
/// times `v`, divided by ten to the power of their count and rounded down.
pub fn hour_fraction_seconds(digits: &str) -> (r: i64)
    requires
        all_digits(digits@),
    ensures
        r == hour_fraction(digits@),
        r == (3600 * digits_value(digits@)) / pow(10, digits@.len()),
        0 <= r < 3600,
{
    scale_fraction(3600, digits) as i64
}

/// Reads `s` as a number; 0 where it writes none.
pub fn parse_or_zero(s: &str) -> (r: i64)
    ensures
        r == number_or_zero(s@),
        r >= 0,
{
    match parse_number(s, NUMBER_LIMIT) {
        Some(v) => v as i64,
        None => 0,
    }
}

/// `v` as a 64-bit number, where it fits.
pub fn fit(v: i128) -> (r: Option<i64>)
    ensures
        r == fitting(v as int),
{
    if -9223372036854775808i128 <= v && v <= 9223372036854775807i128 {
        Some(v as i64)
    } else {
        None
    }
}

/// Computes [`colon_seconds`].
pub fn seconds_with_colons(hours: i64, rest: &str) -> (r: i128)
    requires
        hours >= 0,
    ensures
        r == colon_seconds(hours as int, rest@),
{
    let (mins_text, sep, last) = slice_number_part(rest);
    let mins: i64 = parse_or_zero(mins_text);
    let secs: i64 = if is_char(sep, ':') {
        match parse_signed(last) {
            Some(x) => x,
            None => 0,
        }
    } else {
        0
    };
    secs as i128 + 60 * (mins as i128) + 3600 * (hours as i128)
}

/// Computes [`packed_seconds`].
pub fn seconds_packed(digits: &str, hours: i64) -> (r: i128)
    requires
        hours >= 0,
    ensures
        r == packed_seconds(digits@, hours as int),
{
    let l: usize = digits.unicode_len();
    if l < 2 {
        return hours as i128 * 3600;
    }
    let k: usize = 2 - l % 2;
    let h: i64 = parse_or_zero(digits.substring_char(0, k));
    let m: i64 = if l >= 3 {
        parse_or_zero(digits.substring_char(k, k + 2))
    } else {
        0
    };
    let s: i64 = if l >= 5 {
        parse_or_zero(digits.substring_char(k + 2, k + 4))
    } else {
        0
    };
    h as i128 * 3600 + m as i128 * 60 + s as i128
}

/// Reads a numeric zone such as `+09:00`, `-0930`, `+5.5` or `-9` as an
/// offset in seconds.
pub fn numeric_offset(s: &str) -> (r: Option<i64>)
    ensures
        r == numeric_zone(s@),
{
    let n: usize = s.unicode_len();
    if n == 0 {
        return None;
    }
    let first: char = s.get_char(0);
    if first != '+' && first != '-' {
        return None;
    }
    let negative: bool = first == '-';
    let body: &str = s.substring_char(1, n);
    assert(body@ =~= s@.skip(1));
    let (hours_text, sep, rest) = slice_number_part(body);
    let hours: i64 = match parse_number(hours_text, NUMBER_LIMIT) {
        Some(v) => v as i64,
        None => {
            return None;
        },
    };
    let total: i128 = if is_char(sep, ':') {
        seconds_with_colons(hours, rest)
    } else if is_char(sep, ',') || is_char(sep, '.') {
        let (frac, _sep, _rest) = slice_number_part(rest);
        proof {
            lemma_run_len(CharClass::Digit, rest@);
        }
        hours as i128 * 3600 + hour_fraction_seconds(frac) as i128
    } else {
        seconds_packed(hours_text, hours)
    };
    if negative {
        assert(-total == -1 * total);
        fit(-total)
    } else {
        assert(total == 1 * total);
        fit(total)
    }
}

/// The offset of a zone whose ending is already taken off: see
/// [`residual_offset`].
pub fn offset_of_residual(residual: &str, dst: bool, stripped: &str) -> (r: Option<i64>)
    ensures
        r == residual_offset(residual@, dst, stripped@),
{
    match zone_offset(residual) {
        Some(v) => {
            if dst {
                Some(v + 3600)
            } else {
                Some(v)
            }
        },
        None => numeric_offset(stripped),
    }
}

/// Group 1 of the first match of `pattern` in `text`, as [`front_part`] has
/// it.
pub fn take_front(pattern: &str, text: &str) -> (r: Option<String>)
    ensures
        r.deep_view() == front_part(pattern@, text@),
{
    match first_match(pattern, true, false, text) {
        Some(found) => match get_group(&found.groups, 1) {
            Some(s) => Some(String::from_str(s)),
            None => Some(String::from_str(text)),
        },
        None => None,
    }
}

/// Takes the ending "standard time", "daylight time" or "dst" off a zone
/// name and tells whether the ending names daylight saving time.
pub fn strip_suffix(zone: &str) -> (r: (String, bool))
    ensures
        (r.0@, r.1) == without_suffix(zone@),
{
    match take_front(STANDARD_TIME_SUFFIX, zone) {
        Some(s) => (s, false),
        None => match take_front(DAYLIGHT_TIME_SUFFIX, zone) {
            Some(s) => (s, true),
            None => match take_front(DST_SUFFIX, zone) {
                Some(s) => (s, true),
                None => (String::from_str(zone), false),
            },
        },
    }
}

/// Takes a leading "gmt" or "utc" off a zone.
pub fn strip_prefix(zone: &str) -> (r: String)
    ensures
        r@ == without_prefix(zone@),
{
    match take_front(GMT_UTC_PREFIX, zone) {
        Some(s) => s,
        None => String::from_str(zone),
    }
}

/// Resolves the zone token `zone` to its offset from UTC in seconds, east
/// positive: by the table of named zones, with one hour added for a name
/// that ends in "daylight time" or "dst", or else by the numbers that the
/// token writes. Offsets are not held to any range. `None` for a token that
/// is neither.
pub fn date_zone_to_diff(zone: &str) -> (r: Option<i64>)
    ensures
        r == zone_to_diff(zone@),
{
    let (residual, dst) = strip_suffix(zone);
    let stripped: String = strip_prefix(residual.as_str());
    offset_of_residual(residual.as_str(), dst, stripped.as_str())
}

} // verus!
