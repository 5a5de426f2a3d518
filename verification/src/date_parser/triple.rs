//! Deciding which of three tokens is the year, which the month and which the
//! day, and writing the three numbers into the record.

use vstd::prelude::*;
use vstd::string::*;
use crate::date_parser::record::{DateTime, Fields};
use crate::date_parser::text::{
    begins_with, char_len, first_digit_run, first_digits, join, number_i64, number_up_to,
    parse_number, parse_signed, signed_number_part, slice_signed_number_part, starts_with_char,
};

verus! {

/// Three tokens in the places of year, month and day, as sequences.
pub struct Triple {
    pub year: Option<Seq<char>>,
    pub month: Option<Seq<char>>,
    pub day: Option<Seq<char>>,
}

/// Three tokens in the places of year, month and day.
pub struct Tokens {
    pub year: Option<String>,
    pub month: Option<String>,
    pub day: Option<String>,
}

impl View for Tokens {
    type V = Triple;

    open spec fn view(&self) -> Triple {
        Triple {
            year: self.year.deep_view(),
            month: self.month.deep_view(),
            day: self.day.deep_view(),
        }
    }
}

/// A token that is there and not empty.
pub open spec fn present(t: Option<Seq<char>>) -> Option<Seq<char>> {
    match t {
        Some(s) => if s.len() > 0 {
            Some(s)
        } else {
            None
        },
        None => None,
    }
}

/// Whether a token cannot be a month or a day: it starts with an apostrophe
/// or has more than two characters.
pub open spec fn looks_like_year(s: Seq<char>) -> bool {
    begins_with(s, '\'') || s.len() > 2
}

/// With a year and a month but no day, the two tokens are month and day.
pub open spec fn shift_missing_day(t: Triple) -> Triple {
    if t.year is Some && t.month is Some && t.day is None {
        Triple { year: None, month: t.year, day: t.month }
    } else {
        t
    }
}

/// Without a year, a day token that cannot be a day is the year.
pub open spec fn promote_day(t: Triple) -> Triple {
    if t.year is None && t.day is Some && looks_like_year(t.day->0) {
        Triple { year: t.day, month: t.month, day: None }
    } else {
        t
    }
}

/// A year token with something behind its number is no year: its number
/// becomes the day and the former day the year.
pub open spec fn split_year(t: Triple) -> Triple {
    match t.year {
        Some(ys) => match signed_number_part(ys) {
            Some((sign, digits, rest)) => if rest.len() > 0 {
                Triple { year: t.day, month: t.month, day: Some(sign + digits) }
            } else {
                t
            },
            None => t,
        },
        None => t,
    }
}

/// A month token that cannot be a month is the year; the day moves to the
/// month and the former year to the day.
pub open spec fn rotate_month(t: Triple) -> Triple {
    if t.month is Some && looks_like_year(t.month->0) {
        Triple { year: t.month, month: t.day, day: t.year }
    } else {
        t
    }
}

/// A day token that cannot be a day is the year; the former year is the day.
pub open spec fn rotate_day(t: Triple) -> Triple {
    if t.day is Some && looks_like_year(t.day->0) {
        Triple { year: t.day, month: t.month, day: t.year }
    } else {
        t
    }
}

/// The three tokens, each in the place that the rules give it.
pub open spec fn arranged(
    year: Option<Seq<char>>,
    month: Option<Seq<char>>,
    day: Option<Seq<char>>,
) -> Triple {
    rotate_day(
        rotate_month(
            split_year(
                promote_day(
                    shift_missing_day(
                        Triple { year: present(year), month: present(month), day: present(day) },
                    ),
                ),
            ),
        ),
    )
}

/// The number of a year token: its first number with its sign.
pub open spec fn year_number(token: Option<Seq<char>>) -> Option<i64> {
    match token {
        Some(ys) => match signed_number_part(ys) {
            Some((sign, digits, rest)) => number_i64(sign + digits),
            None => None,
        },
        None => None,
    }
}

/// Whether a year token names its year in full: it has a sign or more than
/// two digits.
pub open spec fn year_is_explicit(token: Option<Seq<char>>) -> bool {
    match token {
        Some(ys) => match signed_number_part(ys) {
            Some((sign, digits, rest)) => sign.len() > 0 || digits.len() > 2,
            None => false,
        },
        None => false,
    }
}

/// The number of a month or day token: its first run of digits.
pub open spec fn plain_number(token: Option<Seq<char>>) -> Option<u64> {
    match token {
        Some(s) => match first_digits(s) {
            Some(d) => number_up_to(d, u64::MAX),
            None => None,
        },
        None => None,
    }
}

/// `new` where it is set, else `old`.
pub open spec fn or_keep<T>(new: Option<T>, old: Option<T>) -> Option<T> {
    if new is Some {
        new
    } else {
        old
    }
}

/// The record after three tokens were arranged and read: year, month and day
/// are overwritten where the tokens give a number, the era flag is set to
/// `is_bc`, and a year named in full switches century completion off.
pub open spec fn triple_fields(
    dt: Fields,
    year: Option<Seq<char>>,
    month: Option<Seq<char>>,
    day: Option<Seq<char>>,
    is_bc: bool,
) -> Fields {
    let t = arranged(year, month, day);
    Fields {
        year: or_keep(year_number(t.year), dt.year),
        mon: or_keep(plain_number(t.month), dt.mon),
        mday: or_keep(plain_number(t.day), dt.mday),
        bc: is_bc,
        comp: if year_is_explicit(t.year) {
            Some(false)
        } else {
            dt.comp
        },
        ..dt
    }
}

/// A copy of a token that is there and not empty.
pub fn present_token(t: &Option<&str>) -> (r: Option<String>)
    ensures
        r.deep_view() == present(t.deep_view()),
{
    match t {
        Some(s) => {
            if char_len(s) > 0 {
                Some(String::from_str(s))
            } else {
                None
            }
        },
        None => None,
    }
}

/// Decides whether a token cannot be a month or a day.
pub fn token_looks_like_year(s: &str) -> (r: bool)
    ensures
        r == looks_like_year(s@),
{
    starts_with_char(s, '\'') || char_len(s) > 2
}

/// Applies [`shift_missing_day`].
pub fn do_shift_missing_day(t: Tokens) -> (r: Tokens)
    ensures
        r@ == shift_missing_day(t@),
{
    if t.year.is_some() && t.month.is_some() && t.day.is_none() {
        Tokens { year: None, month: t.year, day: t.month }
    } else {
        t
    }
}

/// Applies [`promote_day`].
pub fn do_promote_day(t: Tokens) -> (r: Tokens)
    ensures
        r@ == promote_day(t@),
{
    let promote: bool = t.year.is_none() && match &t.day {
        Some(d) => token_looks_like_year(d.as_str()),
        None => false,
    };
    if promote {
        Tokens { year: t.day, month: t.month, day: None }
    } else {
        t
    }
}

/// Applies [`split_year`].
pub fn do_split_year(t: Tokens) -> (r: Tokens)
    ensures
        r@ == split_year(t@),
{
    let glued: Option<String> = match &t.year {
        Some(ys) => match slice_signed_number_part(ys.as_str()) {
            Some((sign, digits, rest)) => {
                if char_len(rest) > 0 {
                    Some(join(sign, digits))
                } else {
                    None
                }
            },
            None => None,
        },
        None => None,
    };
    match glued {
        Some(number) => Tokens { year: t.day, month: t.month, day: Some(number) },
        None => t,
    }
}

/// Applies [`rotate_month`].
pub fn do_rotate_month(t: Tokens) -> (r: Tokens)
    ensures
        r@ == rotate_month(t@),
{
    let rotate: bool = match &t.month {
        Some(m) => token_looks_like_year(m.as_str()),
        None => false,
    };
    if rotate {
        Tokens { year: t.month, month: t.day, day: t.year }
    } else {
        t
    }
}

/// Applies [`rotate_day`].
pub fn do_rotate_day(t: Tokens) -> (r: Tokens)
    ensures
        r@ == rotate_day(t@),
{
    let rotate: bool = match &t.day {
        Some(d) => token_looks_like_year(d.as_str()),
        None => false,
    };
    if rotate {
        Tokens { year: t.day, month: t.month, day: t.year }
    } else {
        t
    }
}

/// Reads the number of a year token and tells whether the token names the
/// year in full.
pub fn read_year(token: &Option<String>) -> (r: (Option<i64>, bool))
    ensures
        r.0 == year_number(token.deep_view()),
        r.1 == year_is_explicit(token.deep_view()),
{
    match token {
        Some(ys) => match slice_signed_number_part(ys.as_str()) {
            Some((sign, digits, _rest)) => {
                let explicit: bool = char_len(sign) > 0 || char_len(digits) > 2;
                let written: String = join(sign, digits);
                (parse_signed(written.as_str()), explicit)
            },
            None => (None, false),
        },
        None => (None, false),
    }
}

/// Reads the number of a month or day token.
pub fn read_plain(token: &Option<String>) -> (r: Option<u64>)
    ensures
        r == plain_number(token.deep_view()),
{
    match token {
        Some(s) => match first_digit_run(s.as_str()) {
            Some(d) => parse_number(d, u64::MAX),
            None => None,
        },
        None => None,
    }
}

/// Takes three tokens in the order in which a format names year, month and
/// day, decides which of them really is the year, and writes the numbers
/// into `datetime`.
///
/// A token whose number does not fit its field leaves the field as it was.
pub fn validate_and_set_date(
    datetime: &mut DateTime,
    yr: &Option<&str>,
    m: &Option<&str>,
    d: &Option<&str>,
    is_bc: bool,
)
    ensures
        final(datetime)@ == triple_fields(
            old(datetime)@,
            yr.deep_view(),
            m.deep_view(),
            d.deep_view(),
            is_bc,
        ),
{
    let t = Tokens { year: present_token(yr), month: present_token(m), day: present_token(d) };
    let t = do_shift_missing_day(t);
    let t = do_promote_day(t);
    let t = do_split_year(t);
    let t = do_rotate_month(t);
    let t = do_rotate_day(t);
    let (year, explicit) = read_year(&t.year);
    match year {
        Some(y) => {
            datetime.year = Some(y);
        },
        None => {},
    }
    match read_plain(&t.month) {
        Some(n) => {
            datetime.mon = Some(n);
        },
        None => {},
    }
    match read_plain(&t.day) {
        Some(n) => {
            datetime.mday = Some(n);
        },
        None => {},
    }
    datetime.bc = is_bc;
    if explicit {
        datetime.comp = Some(false);
    }
}

} // verus!
