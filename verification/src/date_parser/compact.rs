//! Decoding runs of digits without separators, as the basic formats of ISO
//! 8601 and similar compact forms write dates and times.

use vstd::prelude::*;
use vstd::string::*;
use crate::date_parser::pattern::{get_group, group, regex_captures, blanked, take_first};
use crate::date_parser::record::{put, DateTime, Fields, Slot};
use crate::date_parser::text::{
    begins_with, char_len, is_char, is_digit, join, number_i64, parse_signed, split_at_first,
    split_once, starts_with_char, strip_end, strip_start, trim_end, trim_start, char_is_digit,
};
use crate::date_parser::zone::{date_zone_to_diff, zone_to_diff};

verus! {

/// A run of 2 to 14 digits with an optional sign in front (groups 1 and 2),
/// an optional second run of 2 to 6 digits (group 3), an optional fraction
/// behind `.` or `,` (group 4), and an optional zone: `z`, a signed number of
/// up to four digits, or a text in square brackets (group 5).
pub const COMPACT_PATTERN: &'static str = r"
                        ([-+]?)(\d{2,14})
                            (?:
                                \s*
                                t?
                                \s*
                                (\d{2,6})?(?:[,.](\d*))?
                            )?
                            (?:
                                \s*
                                (
                                    z\b
                                |
                                    [-+]\d{1,4}\b
                                |
                                    \[[-+]?\d[^\]]*\]
                                )
                            )?
                        ";

/// The smaller of two numbers.
pub open spec fn least(a: int, b: int) -> int {
    if a <= b {
        a
    } else {
        b
    }
}

/// The number written by the `size` characters of `s` from position `start`
/// on, or by those that are left where `s` ends earlier.
pub open spec fn piece(s: Seq<char>, start: int, size: int) -> Option<i64> {
    number_i64(s.subrange(start, least(start + size, s.len() as int)))
}

/// Reads the `size` characters of `string` from position `start` on as a
/// signed number; where `string` ends earlier, those that are left.
pub fn digits_str_to_int(string: &str, start: usize, size: usize) -> (r: Option<i64>)
    requires
        start <= string@.len(),
        start + size <= usize::MAX,
    ensures
        r == piece(string@, start as int, size as int),
{
    let len: usize = string.unicode_len();
    let end: usize = if start + size <= len {
        start + size
    } else {
        len
    };
    parse_signed(string.substring_char(start, end))
}

/// `v` with the sign of a year: negated where `negative`, as far as the
/// result fits.
pub open spec fn with_sign(negative: bool, v: Option<i64>) -> Option<i64> {
    match v {
        Some(n) => if negative {
            if n == i64::MIN {
                None
            } else {
                Some((-n) as i64)
            }
        } else {
            Some(n)
        },
        None => None,
    }
}

/// The number of a piece of `s`, written into the field `slot`.
pub open spec fn put_piece(dt: Fields, slot: Slot, s: Seq<char>, start: int, size: int) -> Fields {
    put(dt, slot, piece(s, start, size))
}

/// The signed number of a piece of `s`, written into the year.
pub open spec fn put_year(
    dt: Fields,
    negative: bool,
    s: Seq<char>,
    start: int,
    size: int,
) -> Fields {
    put(dt, Slot::Year, with_sign(negative, piece(s, start, size)))
}

/// The record with century completion switched off.
pub open spec fn full_year(dt: Fields) -> Fields {
    Fields { comp: Some(false), ..dt }
}

/// A run of digits read as a date, from the left. By the length of the run:
/// 2 is the day, 3 the day of the year, 4 month and day, 5 a year of two
/// digits and the day of the year, 6 a year of two digits, month and day, 7
/// a year of four digits and the day of the year; 8, 10, 12 and 14 are a
/// year of four digits, month and day, then hour, minute and second as far
/// as the run goes. A run of 14 switches century completion off. The sign
/// belongs to the year.
pub open spec fn date_run(dt: Fields, s: Seq<char>, negative: bool) -> Fields {
    let l = s.len();
    if l == 2 {
        put_piece(dt, Slot::Mday, s, 0, 2)
    } else if l == 3 {
        put_piece(dt, Slot::Yday, s, 0, 3)
    } else if l == 4 {
        put_piece(put_piece(dt, Slot::Mon, s, 0, 2), Slot::Mday, s, 2, 2)
    } else if l == 5 {
        put_piece(put_year(dt, negative, s, 0, 2), Slot::Yday, s, 2, 3)
    } else if l == 6 {
        let a = put_piece(put_year(dt, negative, s, 0, 2), Slot::Mon, s, 2, 2);
        put_piece(a, Slot::Mday, s, 4, 2)
    } else if l == 7 {
        put_piece(put_year(dt, negative, s, 0, 4), Slot::Yday, s, 4, 3)
    } else if l == 8 || l == 10 || l == 12 || l == 14 {
        let a = put_piece(
            put_piece(put_year(dt, negative, s, 0, 4), Slot::Mon, s, 4, 2),
            Slot::Mday,
            s,
            6,
            2,
        );
        let b = if l >= 10 {
            put_piece(a, Slot::Hour, s, 8, 2)
        } else {
            a
        };
        let c = if l >= 12 {
            put_piece(b, Slot::Min, s, 10, 2)
        } else {
            b
        };
        if l == 14 {
            full_year(put_piece(c, Slot::Sec, s, 12, 2))
        } else {
            c
        }
    } else {
        dt
    }
}

/// A run of digits read as a time, from the right: seconds, minutes, hours,
/// then day, month and year as far as the run goes, each of two digits. In a
/// run of odd length the leftmost field has one digit; in a run of 14 the
/// year has four, and century completion is switched off. The sign belongs
/// to the year.
pub open spec fn time_run(dt: Fields, s: Seq<char>, negative: bool) -> Fields {
    let l = s.len() as int;
    if l == 2 {
        put_piece(dt, Slot::Sec, s, 0, 2)
    } else if l == 3 {
        put_piece(put_piece(dt, Slot::Sec, s, 1, 2), Slot::Min, s, 0, 1)
    } else if l == 4 {
        put_piece(put_piece(dt, Slot::Sec, s, 2, 2), Slot::Min, s, 0, 2)
    } else if l == 5 {
        let a = put_piece(put_piece(dt, Slot::Sec, s, 3, 2), Slot::Min, s, 1, 2);
        put_piece(a, Slot::Hour, s, 0, 1)
    } else if l == 6 {
        let a = put_piece(put_piece(dt, Slot::Sec, s, 4, 2), Slot::Min, s, 2, 2);
        put_piece(a, Slot::Hour, s, 0, 2)
    } else if l == 7 {
        let a = put_piece(put_piece(dt, Slot::Sec, s, 5, 2), Slot::Min, s, 3, 2);
        put_piece(put_piece(a, Slot::Hour, s, 1, 2), Slot::Mday, s, 0, 1)
    } else if l == 8 || l == 10 || l == 12 || l == 14 {
        let a = put_piece(
            put_piece(
                put_piece(put_piece(dt, Slot::Sec, s, l - 2, 2), Slot::Min, s, l - 4, 2),
                Slot::Hour,
                s,
                l - 6,
                2,
            ),
            Slot::Mday,
            s,
            l - 8,
            2,
        );
        let b = if l >= 10 {
            put_piece(a, Slot::Mon, s, l - 10, 2)
        } else {
            a
        };
        if l == 12 {
            put_year(b, negative, s, 0, 2)
        } else if l == 14 {
            full_year(put_year(b, negative, s, 0, 4))
        } else {
            b
        }
    } else {
        dt
    }
}

/// A second run of 2, 4 or 6 digits. Without a fraction behind it, it is
/// read from the left as hour, minute, second; with a fraction, from the
/// right as second, minute, hour. A run of another length is passed over.
pub open spec fn second_run(dt: Fields, s: Seq<char>, with_fraction: bool) -> Fields {
    let l = s.len() as int;
    if l == 2 || l == 4 || l == 6 {
        if with_fraction {
            let a = put_piece(dt, Slot::Sec, s, l - 2, 2);
            let b = if l >= 4 {
                put_piece(a, Slot::Min, s, l - 4, 2)
            } else {
                a
            };
            if l >= 6 {
                put_piece(b, Slot::Hour, s, l - 6, 2)
            } else {
                b
            }
        } else {
            let a = put_piece(dt, Slot::Hour, s, 0, 2);
            let b = if l >= 4 {
                put_piece(a, Slot::Min, s, 2, 2)
            } else {
                a
            };
            if l >= 6 {
                put_piece(b, Slot::Sec, s, 4, 2)
            } else {
                b
            }
        }
    } else {
        dt
    }
}

/// The zone behind a run of digits. The token becomes the zone text. Where
/// it stands in square brackets, the text between them counts: cut at its
/// first colon, the front part gives the offset and the back part is the
/// zone text; without a colon the text is both, and a text that starts with
/// a digit is read as an offset east of UTC.
pub open spec fn trailing_zone(dt: Fields, z: Seq<char>) -> Fields {
    if begins_with(z, '[') {
        let inner = strip_end(strip_start(z, '['), ']');
        match split_at_first(inner, ':') {
            Some((front, name)) => Fields { zone: Some(name), offset: zone_to_diff(front), ..dt },
            None => if inner.len() == 0 {
                Fields { zone: Some(inner), ..dt }
            } else if is_digit(inner[0]) {
                Fields { zone: Some(inner), offset: zone_to_diff(seq!['+'] + inner), ..dt }
            } else {
                Fields { zone: Some(inner), offset: zone_to_diff(inner), ..dt }
            },
        }
    } else {
        Fields { zone: Some(z), ..dt }
    }
}

/// The record after a match of [`COMPACT_PATTERN`] with the groups `g`.
///
/// The first run is read as a time where a fraction follows it directly,
/// else as a date. Then come the second run, the fraction and the zone.
pub open spec fn compact_fields(dt: Fields, g: Seq<Option<Seq<char>>>) -> Fields {
    match group(g, 2) {
        None => dt,
        Some(first) => {
            let negative = group(g, 1) == Some(seq!['-']);
            let fraction = group(g, 4);
            let a = if group(g, 3) is None && fraction is Some {
                time_run(dt, first, negative)
            } else {
                date_run(dt, first, negative)
            };
            let b = match group(g, 3) {
                Some(second) => second_run(a, second, fraction is Some),
                None => a,
            };
            let c = match fraction {
                Some(f) => Fields { sec_fraction: Some(f), ..b },
                None => b,
            };
            match group(g, 5) {
                Some(z) => trailing_zone(c, z),
                None => c,
            }
        },
    }
}

/// Writes the number of a piece of `s` into the field `slot`.
pub fn set_piece(datetime: &mut DateTime, slot: Slot, s: &str, start: usize, size: usize)
    requires
        start <= s@.len(),
        start + size <= usize::MAX,
    ensures
        final(datetime)@ == put_piece(old(datetime)@, slot, s@, start as int, size as int),
{
    datetime.set(slot, digits_str_to_int(s, start, size));
}

/// Writes the signed number of a piece of `s` into the year.
pub fn set_year(datetime: &mut DateTime, negative: bool, s: &str, start: usize, size: usize)
    requires
        start <= s@.len(),
        start + size <= usize::MAX,
    ensures
        final(datetime)@ == put_year(old(datetime)@, negative, s@, start as int, size as int),
{
    let v: Option<i64> = match digits_str_to_int(s, start, size) {
        Some(n) => {
            if negative {
                if n == i64::MIN {
                    None
                } else {
                    Some(-n)
                }
            } else {
                Some(n)
            }
        },
        None => None,
    };
    datetime.set(Slot::Year, v);
}

/// Reads a run of digits as a date: see [`date_run`].
pub fn read_date_run(datetime: &mut DateTime, s: &str, negative: bool)
    ensures
        final(datetime)@ == date_run(old(datetime)@, s@, negative),
{
    let l: usize = char_len(s);
    if l == 2 {
        set_piece(datetime, Slot::Mday, s, 0, 2);
    } else if l == 3 {
        set_piece(datetime, Slot::Yday, s, 0, 3);
    } else if l == 4 {
        set_piece(datetime, Slot::Mon, s, 0, 2);
        set_piece(datetime, Slot::Mday, s, 2, 2);
    } else if l == 5 {
        set_year(datetime, negative, s, 0, 2);
        set_piece(datetime, Slot::Yday, s, 2, 3);
    } else if l == 6 {
        set_year(datetime, negative, s, 0, 2);
        set_piece(datetime, Slot::Mon, s, 2, 2);
        set_piece(datetime, Slot::Mday, s, 4, 2);
    } else if l == 7 {
        set_year(datetime, negative, s, 0, 4);
        set_piece(datetime, Slot::Yday, s, 4, 3);
    } else if l == 8 || l == 10 || l == 12 || l == 14 {
        set_year(datetime, negative, s, 0, 4);
        set_piece(datetime, Slot::Mon, s, 4, 2);
        set_piece(datetime, Slot::Mday, s, 6, 2);
        if l >= 10 {
            set_piece(datetime, Slot::Hour, s, 8, 2);
        }
        if l >= 12 {
            set_piece(datetime, Slot::Min, s, 10, 2);
        }
        if l == 14 {
            set_piece(datetime, Slot::Sec, s, 12, 2);
            datetime.comp = Some(false);
        }
    }
}

/// Reads a run of digits as a time: see [`time_run`].
pub fn read_time_run(datetime: &mut DateTime, s: &str, negative: bool)
    ensures
        final(datetime)@ == time_run(old(datetime)@, s@, negative),
{
    let l: usize = char_len(s);
    if l == 2 {
        set_piece(datetime, Slot::Sec, s, 0, 2);
    } else if l == 3 {
        set_piece(datetime, Slot::Sec, s, 1, 2);
        set_piece(datetime, Slot::Min, s, 0, 1);
    } else if l == 4 {
        set_piece(datetime, Slot::Sec, s, 2, 2);
        set_piece(datetime, Slot::Min, s, 0, 2);
    } else if l == 5 {
        set_piece(datetime, Slot::Sec, s, 3, 2);
        set_piece(datetime, Slot::Min, s, 1, 2);
        set_piece(datetime, Slot::Hour, s, 0, 1);
    } else if l == 6 {
        set_piece(datetime, Slot::Sec, s, 4, 2);
        set_piece(datetime, Slot::Min, s, 2, 2);
        set_piece(datetime, Slot::Hour, s, 0, 2);
    } else if l == 7 {
        set_piece(datetime, Slot::Sec, s, 5, 2);
        set_piece(datetime, Slot::Min, s, 3, 2);
        set_piece(datetime, Slot::Hour, s, 1, 2);
        set_piece(datetime, Slot::Mday, s, 0, 1);
    } else if l == 8 || l == 10 || l == 12 || l == 14 {
        set_piece(datetime, Slot::Sec, s, l - 2, 2);
        set_piece(datetime, Slot::Min, s, l - 4, 2);
        set_piece(datetime, Slot::Hour, s, l - 6, 2);
        set_piece(datetime, Slot::Mday, s, l - 8, 2);
        if l >= 10 {
            set_piece(datetime, Slot::Mon, s, l - 10, 2);
        }
        if l == 12 {
            set_year(datetime, negative, s, 0, 2);
        }
        if l == 14 {
            set_year(datetime, negative, s, 0, 4);
            datetime.comp = Some(false);
        }
    }
}

/// Reads a second run of digits: see [`second_run`].
pub fn read_second_run(datetime: &mut DateTime, s: &str, with_fraction: bool)
    ensures
        final(datetime)@ == second_run(old(datetime)@, s@, with_fraction),
{
    let l: usize = char_len(s);
    if l == 2 || l == 4 || l == 6 {
        if with_fraction {
            set_piece(datetime, Slot::Sec, s, l - 2, 2);
            if l >= 4 {
                set_piece(datetime, Slot::Min, s, l - 4, 2);
            }
            if l >= 6 {
                set_piece(datetime, Slot::Hour, s, l - 6, 2);
            }
        } else {
            set_piece(datetime, Slot::Hour, s, 0, 2);
            if l >= 4 {
                set_piece(datetime, Slot::Min, s, 2, 2);
            }
            if l >= 6 {
                set_piece(datetime, Slot::Sec, s, 4, 2);
            }
        }
    }
}

/// Reads the zone behind a run of digits: see [`trailing_zone`].
pub fn read_trailing_zone(datetime: &mut DateTime, z: &str)
    ensures
        final(datetime)@ == trailing_zone(old(datetime)@, z@),
{
    if starts_with_char(z, '[') {
        let inner: &str = trim_end(trim_start(z, '['), ']');
        match split_once(inner, ':') {
            Some((front, name)) => {
                datetime.set_zone(name);
                datetime.offset = date_zone_to_diff(front);
            },
            None => {
                datetime.set_zone(inner);
                if char_len(inner) > 0 {
                    if char_is_digit(inner.get_char(0)) {
                        proof {
                            reveal_strlit("+");
                        }
                        let east: String = join("+", inner);
                        assert(east@ =~= seq!['+'] + inner@);
                        datetime.offset = date_zone_to_diff(east.as_str());
                    } else {
                        datetime.offset = date_zone_to_diff(inner);
                    }
                }
            },
        }
    } else {
        datetime.set_zone(z);
    }
}

/// Writes what a match of [`COMPACT_PATTERN`] with the groups `groups` says
/// into `datetime`.
pub fn apply_compact(datetime: &mut DateTime, groups: &Vec<Option<String>>)
    ensures
        final(datetime)@ == compact_fields(old(datetime)@, groups.deep_view()),
{
    let first: &str = match get_group(groups, 2) {
        Some(s) => s,
        None => {
            return ;
        },
    };
    let negative: bool = match get_group(groups, 1) {
        Some(s) => is_char(s, '-'),
        None => false,
    };
    let second: Option<&str> = get_group(groups, 3);
    let fraction: Option<&str> = get_group(groups, 4);
    if second.is_none() && fraction.is_some() {
        read_time_run(datetime, first, negative);
    } else {
        read_date_run(datetime, first, negative);
    }
    match second {
        Some(s) => {
            read_second_run(datetime, s, fraction.is_some());
        },
        None => {},
    }
    match fraction {
        Some(f) => {
            datetime.set_sec_fraction(f);
        },
        None => {},
    }
    match get_group(groups, 5) {
        Some(z) => {
            read_trailing_zone(datetime, z);
        },
        None => {},
    }
}

/// What the compact-digits stage makes of the text `s` and the record `dt`:
/// whether [`COMPACT_PATTERN`] matched, the text that is left, and the
/// record.
pub open spec fn compact_stage(s: Seq<char>, dt: Fields) -> (bool, Seq<char>, Fields) {
    match regex_captures(COMPACT_PATTERN@, true, true, s) {
        Some(m) => (true, blanked(m), compact_fields(dt, m.1)),
        None => (false, s, dt),
    }
}

/// Looks in `string` for a run of digits without separators, with an
/// optional second run, fraction and zone, and decodes it by its length.
/// The match gives way to one space.
pub fn parse_ddd(string: &mut String, datetime: &mut DateTime) -> (matched: bool)
    ensures
        (matched, final(string)@, final(datetime)@) == compact_stage(old(string)@, old(datetime)@),
{
    match take_first(COMPACT_PATTERN, true, true, string) {
        Some(groups) => {
            apply_compact(datetime, &groups);
            true
        },
        None => false,
    }
}

} // verus!
