//! The cascade of extractors: each looks for one notation of a date in the
//! text, writes what it finds into the record and blanks the match out.

use vstd::prelude::*;
use vstd::string::*;
use crate::date_parser::clock::{parse_time, time_stage};
use crate::date_parser::compact::{compact_stage, parse_ddd};
use crate::date_parser::names::{
    check_classes, day_num, day_number, era_base, era_is_bc, gengo, has_classes, is_bc_era,
    month_digits, months_num, HAVE_ALPHA, HAVE_DASH, HAVE_DIGIT, HAVE_DOT, HAVE_SLASH,
};
use crate::date_parser::pattern::{
    blanked, get_group, group, group_number, is_match, read_group, regex_captures, take_first,
};
use crate::date_parser::record::{no_fields, put, Fields, Slot};
use crate::date_parser::text::{
    normalize, normalized, number_up_to, parse_number, trim, trimmed,
};
use crate::date_parser::triple::{triple_fields, validate_and_set_date};
use crate::date_parser::zone::{date_zone_to_diff, fit, fitting, zone_to_diff};

pub use crate::date_parser::record::DateTime;

verus! {

/// The name of a week day: its first three letters (group 1) and what
/// follows them.
pub const DAY: &'static str = r"\b(sun|mon|tue|wed|thu|fri|sat)[^-/\d\s]*";

/// Day (group 1), month name (group 2), and optionally an era (group 3) and
/// a year (group 4).
pub const EU: &'static str = r"
            ('?\d+)[^-\d\s]*
            \s*
            (jan|feb|mar|apr|may|jun|jul|aug|sep|oct|nov|dec)[^-\d\s']*
            (?:
                \s*
                (c(?:e|\.e\.)|b(?:ce|\.c\.e\.)|a(?:d|\.d\.)|b(?:c|\.c\.))?
                \s*
                ('?-?\d+(?:(?:st|nd|rd|th)\b)?)
            )?
        ";

/// Month name (group 1), day (group 2), and optionally an era (group 3) and
/// a year (group 4).
pub const US: &'static str = r"
            \b(jan|feb|mar|apr|may|jun|jul|aug|sep|oct|nov|dec)[^-\d\s']*
                \s*
                ('?\d+)[^-\d\s']*
                (?:
                    \s*,?
                    \s*
                    (c(?:e|\.e\.)|b(?:ce|\.c\.e\.)|a(?:d|\.d\.)|b(?:c|\.c\.))?
                    \s*
                    ('?-?\d+)
            )?

        ";

/// Three numbers with dashes between them.
pub const ISO: &'static str = r"('?[-+]?\d+)-(\d+)-('?-?\d+)";

/// A week date: year of two or four digits (group 1), `w` and the week
/// (group 2), and the day of the week (group 3).
pub const ISO21: &'static str = r"\b(\d{2}|\d{4})?-?w(\d{2})(?:-?(\d))?\b";

/// A day of the week alone: `-w-` and the day (group 1).
pub const ISO22: &'static str = r"-w-(\d)\b";

/// Month (group 1) and day (group 2) behind two dashes, a dash between.
pub const ISO23: &'static str = r"--(\d{2})?-(\d{2})\b";

/// Month (group 1) and day (group 2) behind two dashes, nothing between.
pub const ISO24: &'static str = r"--(\d{2})(\d{2})?\b";

/// What looks like year and day of the year but follows a decimal point.
pub const ISO25_GUARD: &'static str = r"[,.](\d{2}|\d{4})-\d{3}\b";

/// Year of two or four digits (group 1) and day of the year (group 2).
pub const ISO25: &'static str = r"\b(\d{2}|\d{4})-(\d{3})\b";

/// A day of the year that follows another digit.
pub const ISO26_GUARD: &'static str = r"\d-\d{3}\b";

/// A day of the year alone (group 1), behind a dash.
pub const ISO26: &'static str = r"\b-(\d{3})\b";

/// The letter of a Japanese era (group 1), the year of the era (group 2),
/// month (group 3) and day (group 4), dots between the numbers.
pub const JIS: &'static str = r"\b([mtshr])(\d+)\.(\d+)\.(\d+)";

/// Day (group 1), month name (group 2) and year (group 3) with dashes.
pub const VMS11: &'static str = r"
                        ('?-?\d+)-(jan|feb|mar|apr|may|jun|jul|aug|sep|oct|nov|dec)[^-/.]*
                        -('?-?\d+)
                        ";

/// Month name (group 1), day (group 2) and optionally year (group 3) with
/// dashes.
pub const VMS12: &'static str = r"
                        \b(jan|feb|mar|apr|may|jun|jul|aug|sep|oct|nov|dec)[^-/.]*
                        -('?-?\d+)(?:-('?-?\d+))?
                        ";

/// Two or three numbers, a slash behind the first.
pub const SLA: &'static str = r"
                            ('?-?\d+)/\s*('?\d+)(?:\D\s*('?-?\d+))?
                        ";

/// Three numbers with dots between them.
pub const DOT: &'static str = r"
                            ('?-?\d+)\.\s*('?\d+)\.\s*('?-?\d+)
                        ";

/// A year behind an apostrophe (group 1).
pub const YEAR: &'static str = r"'(\d+)\b";

/// The name of a month: its first three letters (group 1) and what follows.
pub const MON: &'static str = r"\b(jan|feb|mar|apr|may|jun|jul|aug|sep|oct|nov|dec)\S*";

/// A day of the month (group 1) with `st`, `nd`, `rd` or `th`.
pub const MDAY: &'static str = r"(\d+)(st|nd|rd|th)\b";

/// A mark of the era before the common era.
pub const BC: &'static str = r"\b(bc\b|bce\b|b\.c\.|b\.c\.e\.)";

/// A text that is one number of one or two digits and nothing else.
pub const FRAG: &'static str = r"\A\s*(\d{1,2})\s*\z";

/// The two digits of the month that a token names, where there is a token.
pub open spec fn month_token(name: Option<Seq<char>>) -> Option<Seq<char>> {
    match name {
        Some(n) => Some(month_digits(n)),
        None => None,
    }
}

/// The two digits of the month that a token names.
pub fn month_of(name: Option<&str>) -> (r: Option<&'static str>)
    ensures
        r.deep_view() == month_token(name.deep_view()),
{
    match name {
        Some(n) => Some(months_num(n)),
        None => None,
    }
}

/// What a stage that matched a pattern with the match `m` leaves: the
/// success, the text with the match blanked out, and the record `fields`.
pub open spec fn matched(
    m: (Seq<char>, Seq<Option<Seq<char>>>, Seq<char>),
    fields: Fields,
) -> (bool, Seq<char>, Fields) {
    (true, blanked(m), fields)
}

/// The record after the name of a week day was found.
pub open spec fn day_fields(dt: Fields, g: Seq<Option<Seq<char>>>) -> Fields {
    match group(g, 1) {
        Some(name) => Fields { wday: Some(day_number(name)), ..dt },
        None => dt,
    }
}

/// What the week-day stage makes of the text `s` and the record `dt`.
pub open spec fn day_stage(s: Seq<char>, dt: Fields) -> (Seq<char>, Fields) {
    match regex_captures(DAY@, true, false, s) {
        Some(m) => (blanked(m), day_fields(dt, m.1)),
        None => (s, dt),
    }
}

/// Writes the week day that a match of [`DAY`] names into `datetime`.
pub fn apply_day(datetime: &mut DateTime, groups: &Vec<Option<String>>)
    ensures
        final(datetime)@ == day_fields(old(datetime)@, groups.deep_view()),
{
    match get_group(groups, 1) {
        Some(name) => {
            datetime.wday = Some(day_num(name));
        },
        None => {},
    }
}

/// Looks in `string` for the name of a week day and writes its number into
/// `datetime`. The match gives way to one space. The result is always
/// `true`.
pub fn parse_day(string: &mut String, datetime: &mut DateTime) -> (r: bool)
    ensures
        r,
        (final(string)@, final(datetime)@) == day_stage(old(string)@, old(datetime)@),
{
    match take_first(DAY, true, false, string) {
        Some(groups) => {
            apply_day(datetime, &groups);
        },
        None => {},
    }
    true
}

/// The record after a date in European order: day, month name, era, year.
pub open spec fn eu_fields(dt: Fields, g: Seq<Option<Seq<char>>>) -> Fields {
    triple_fields(dt, group(g, 4), month_token(group(g, 2)), group(g, 1), era_is_bc(group(g, 3)))
}

/// What the stage for dates in European order makes of `s` and `dt`.
pub open spec fn eu_stage(s: Seq<char>, dt: Fields) -> (bool, Seq<char>, Fields) {
    match regex_captures(EU@, true, true, s) {
        Some(m) => matched(m, eu_fields(dt, m.1)),
        None => (false, s, dt),
    }
}

/// Writes what a match of [`EU`] says into `datetime`.
pub fn apply_eu(datetime: &mut DateTime, groups: &Vec<Option<String>>)
    ensures
        final(datetime)@ == eu_fields(old(datetime)@, groups.deep_view()),
{
    let day = get_group(groups, 1);
    let mon = month_of(get_group(groups, 2));
    let is_bc = is_bc_era(get_group(groups, 3));
    let year = get_group(groups, 4);
    validate_and_set_date(datetime, &year, &mon, &day, is_bc);
}

/// Looks in `string` for a date written as day, month name and optional
/// year, such as `23 May 1999`.
pub fn parse_eu(string: &mut String, datetime: &mut DateTime) -> (r: bool)
    ensures
        (r, final(string)@, final(datetime)@) == eu_stage(old(string)@, old(datetime)@),
{
    match take_first(EU, true, true, string) {
        Some(groups) => {
            apply_eu(datetime, &groups);
            true
        },
        None => false,
    }
}

/// The record after a date in American order: month name, day, era, year.
pub open spec fn us_fields(dt: Fields, g: Seq<Option<Seq<char>>>) -> Fields {
    triple_fields(dt, group(g, 4), month_token(group(g, 1)), group(g, 2), era_is_bc(group(g, 3)))
}

/// What the stage for dates in American order makes of `s` and `dt`.
pub open spec fn us_stage(s: Seq<char>, dt: Fields) -> (bool, Seq<char>, Fields) {
    match regex_captures(US@, true, true, s) {
        Some(m) => matched(m, us_fields(dt, m.1)),
        None => (false, s, dt),
    }
}

/// Writes what a match of [`US`] says into `datetime`.
pub fn apply_us(datetime: &mut DateTime, groups: &Vec<Option<String>>)
    ensures
        final(datetime)@ == us_fields(old(datetime)@, groups.deep_view()),
{
    let mon = month_of(get_group(groups, 1));
    let day = get_group(groups, 2);
    let is_bc = is_bc_era(get_group(groups, 3));
    let year = get_group(groups, 4);
    validate_and_set_date(datetime, &year, &mon, &day, is_bc);
}

/// Looks in `string` for a date written as month name, day and optional
/// year, such as `May 23, 1999`.
pub fn parse_us(string: &mut String, datetime: &mut DateTime) -> (r: bool)
    ensures
        (r, final(string)@, final(datetime)@) == us_stage(old(string)@, old(datetime)@),
{
    match take_first(US, true, true, string) {
        Some(groups) => {
            apply_us(datetime, &groups);
            true
        },
        None => false,
    }
}

/// The record after three numbers in the order year, month, day.
pub open spec fn ymd_fields(dt: Fields, g: Seq<Option<Seq<char>>>) -> Fields {
    triple_fields(dt, group(g, 1), group(g, 2), group(g, 3), false)
}

/// Writes three numbers found in the order year, month, day into
/// `datetime`.
pub fn apply_ymd(datetime: &mut DateTime, groups: &Vec<Option<String>>)
    ensures
        final(datetime)@ == ymd_fields(old(datetime)@, groups.deep_view()),
{
    let year = get_group(groups, 1);
    let mon = get_group(groups, 2);
    let day = get_group(groups, 3);
    validate_and_set_date(datetime, &year, &mon, &day, false);
}

/// What a stage for three numbers with one separator makes of `s` and `dt`.
pub open spec fn ymd_stage(
    pattern: Seq<char>,
    case_insensitive: bool,
    ignore_whitespace: bool,
    s: Seq<char>,
    dt: Fields,
) -> (bool, Seq<char>, Fields) {
    match regex_captures(pattern, case_insensitive, ignore_whitespace, s) {
        Some(m) => matched(m, ymd_fields(dt, m.1)),
        None => (false, s, dt),
    }
}

/// What the stage for dates with dashes makes of `s` and `dt`.
pub open spec fn iso_stage(s: Seq<char>, dt: Fields) -> (bool, Seq<char>, Fields) {
    ymd_stage(ISO@, false, false, s, dt)
}

/// Looks in `string` for three numbers with dashes between them, such as
/// `1999-05-23` or `23-05-1999`.
pub fn parse_iso(string: &mut String, datetime: &mut DateTime) -> (r: bool)
    ensures
        (r, final(string)@, final(datetime)@) == iso_stage(old(string)@, old(datetime)@),
{
    match take_first(ISO, false, false, string) {
        Some(groups) => {
            apply_ymd(datetime, &groups);
            true
        },
        None => false,
    }
}

/// What the stage for dates with slashes makes of `s` and `dt`.
pub open spec fn sla_stage(s: Seq<char>, dt: Fields) -> (bool, Seq<char>, Fields) {
    ymd_stage(SLA@, true, true, s, dt)
}

/// Looks in `string` for two or three numbers with slashes, such as
/// `1999/5/23` or `5/23`.
pub fn parse_sla(string: &mut String, datetime: &mut DateTime) -> (r: bool)
    ensures
        (r, final(string)@, final(datetime)@) == sla_stage(old(string)@, old(datetime)@),
{
    match take_first(SLA, true, true, string) {
        Some(groups) => {
            apply_ymd(datetime, &groups);
            true
        },
        None => false,
    }
}

/// What the stage for dates with dots makes of `s` and `dt`.
pub open spec fn dot_stage(s: Seq<char>, dt: Fields) -> (bool, Seq<char>, Fields) {
    ymd_stage(DOT@, true, true, s, dt)
}

/// Looks in `string` for three numbers with dots between them, such as
/// `1999.5.23`.
pub fn parse_dot(string: &mut String, datetime: &mut DateTime) -> (r: bool)
    ensures
        (r, final(string)@, final(datetime)@) == dot_stage(old(string)@, old(datetime)@),
{
    match take_first(DOT, true, true, string) {
        Some(groups) => {
            apply_ymd(datetime, &groups);
            true
        },
        None => false,
    }
}

/// The number to add to a year of the era that a token names.
pub open spec fn era_of(token: Option<Seq<char>>) -> int {
    match token {
        Some(s) => if s.len() > 0 {
            era_base(s[0]) as int
        } else {
            0
        },
        None => 0,
    }
}

/// The year of the common era for a year of a Japanese era, as far as it
/// fits.
pub open spec fn jis_year(g: Seq<Option<Seq<char>>>) -> Option<i64> {
    match group_number(g, 2) {
        Some(n) => fitting(n + era_of(group(g, 1))),
        None => None,
    }
}

/// The record after a date of a Japanese era.
pub open spec fn jis_fields(dt: Fields, g: Seq<Option<Seq<char>>>) -> Fields {
    put(
        put(put(dt, Slot::Year, jis_year(g)), Slot::Mon, group_number(g, 3)),
        Slot::Mday,
        group_number(g, 4),
    )
}

/// What the stage for dates of a Japanese era makes of `s` and `dt`.
pub open spec fn jis_stage(s: Seq<char>, dt: Fields) -> (bool, Seq<char>, Fields) {
    match regex_captures(JIS@, true, false, s) {
        Some(m) => matched(m, jis_fields(dt, m.1)),
        None => (false, s, dt),
    }
}

/// Writes what a match of [`JIS`] says into `datetime`.
pub fn apply_jis(datetime: &mut DateTime, groups: &Vec<Option<String>>)
    ensures
        final(datetime)@ == jis_fields(old(datetime)@, groups.deep_view()),
{
    let base: u64 = match get_group(groups, 1) {
        Some(s) => {
            if s.unicode_len() > 0 {
                gengo(s.get_char(0))
            } else {
                0
            }
        },
        None => 0,
    };
    let year: Option<i64> = match read_group(groups, 2) {
        Some(n) => fit(n as i128 + base as i128),
        None => None,
    };
    datetime.set(Slot::Year, year);
    datetime.set(Slot::Mon, read_group(groups, 3));
    datetime.set(Slot::Mday, read_group(groups, 4));
}

/// Looks in `string` for a date of a Japanese era, such as `H11.05.23`.
pub fn parse_jis(string: &mut String, datetime: &mut DateTime) -> (r: bool)
    ensures
        (r, final(string)@, final(datetime)@) == jis_stage(old(string)@, old(datetime)@),
{
    match take_first(JIS, true, false, string) {
        Some(groups) => {
            apply_jis(datetime, &groups);
            true
        },
        None => false,
    }
}

/// The record after a date in the order day, month name, year.
pub open spec fn vms11_fields(dt: Fields, g: Seq<Option<Seq<char>>>) -> Fields {
    triple_fields(dt, group(g, 3), month_token(group(g, 2)), group(g, 1), false)
}

/// What the stage for `day-MON-year` makes of `s` and `dt`.
pub open spec fn vms11_stage(s: Seq<char>, dt: Fields) -> (bool, Seq<char>, Fields) {
    match regex_captures(VMS11@, true, true, s) {
        Some(m) => matched(m, vms11_fields(dt, m.1)),
        None => (false, s, dt),
    }
}

/// Writes what a match of [`VMS11`] says into `datetime`.
pub fn apply_vms11(datetime: &mut DateTime, groups: &Vec<Option<String>>)
    ensures
        final(datetime)@ == vms11_fields(old(datetime)@, groups.deep_view()),
{
    let day = get_group(groups, 1);
    let mon = month_of(get_group(groups, 2));
    let year = get_group(groups, 3);
    validate_and_set_date(datetime, &year, &mon, &day, false);
}

/// Looks in `string` for a date such as `08-DEC-1988`.
pub fn parse_vms11(string: &mut String, datetime: &mut DateTime) -> (r: bool)
    ensures
        (r, final(string)@, final(datetime)@) == vms11_stage(old(string)@, old(datetime)@),
{
    match take_first(VMS11, true, true, string) {
        Some(groups) => {
            apply_vms11(datetime, &groups);
            true
        },
        None => false,
    }
}

/// The record after a date in the order month name, day, year.
pub open spec fn vms12_fields(dt: Fields, g: Seq<Option<Seq<char>>>) -> Fields {
    triple_fields(dt, group(g, 3), month_token(group(g, 1)), group(g, 2), false)
}

/// What the stage for `MON-day-year` makes of `s` and `dt`.
pub open spec fn vms12_stage(s: Seq<char>, dt: Fields) -> (bool, Seq<char>, Fields) {
    match regex_captures(VMS12@, true, true, s) {
        Some(m) => matched(m, vms12_fields(dt, m.1)),
        None => (false, s, dt),
    }
}

/// Writes what a match of [`VMS12`] says into `datetime`.
pub fn apply_vms12(datetime: &mut DateTime, groups: &Vec<Option<String>>)
    ensures
        final(datetime)@ == vms12_fields(old(datetime)@, groups.deep_view()),
{
    let mon = month_of(get_group(groups, 1));
    let day = get_group(groups, 2);
    let year = get_group(groups, 3);
    validate_and_set_date(datetime, &year, &mon, &day, false);
}

/// Looks in `string` for a date such as `DEC-08-1988` or `DEC-1988`.
pub fn parse_vms12(string: &mut String, datetime: &mut DateTime) -> (r: bool)
    ensures
        (r, final(string)@, final(datetime)@) == vms12_stage(old(string)@, old(datetime)@),
{
    match take_first(VMS12, true, true, string) {
        Some(groups) => {
            apply_vms12(datetime, &groups);
            true
        },
        None => false,
    }
}

/// The first of two stage results that succeeded; `second` is what the
/// second stage makes of what the first left.
pub open spec fn or_else(first: (bool, Seq<char>, Fields), second: (bool, Seq<char>, Fields)) -> (
    bool,
    Seq<char>,
    Fields,
) {
    if first.0 {
        first
    } else {
        second
    }
}

/// What the stage for dates with a month name between dashes makes of `s`
/// and `dt`: the order day, month, year is tried first.
pub open spec fn vms_stage(s: Seq<char>, dt: Fields) -> (bool, Seq<char>, Fields) {
    let first = vms11_stage(s, dt);
    or_else(first, vms12_stage(first.1, first.2))
}

/// Looks in `string` for a date with a month name and dashes, in either
/// order of day and month.
pub fn parse_vms(string: &mut String, datetime: &mut DateTime) -> (r: bool)
    ensures
        (r, final(string)@, final(datetime)@) == vms_stage(old(string)@, old(datetime)@),
{
    if parse_vms11(string, datetime) {
        return true;
    }
    parse_vms12(string, datetime)
}

/// The record after a week date.
pub open spec fn iso21_fields(dt: Fields, g: Seq<Option<Seq<char>>>) -> Fields {
    put(
        put(put(dt, Slot::Cwyear, group_number(g, 1)), Slot::Cweek, group_number(g, 2)),
        Slot::Cwday,
        group_number(g, 3),
    )
}

/// What the stage for week dates makes of `s` and `dt`.
pub open spec fn iso21_stage(s: Seq<char>, dt: Fields) -> (bool, Seq<char>, Fields) {
    match regex_captures(ISO21@, true, false, s) {
        Some(m) => matched(m, iso21_fields(dt, m.1)),
        None => (false, s, dt),
    }
}

/// Writes what a match of [`ISO21`] says into `datetime`.
pub fn apply_iso_21(datetime: &mut DateTime, groups: &Vec<Option<String>>)
    ensures
        final(datetime)@ == iso21_fields(old(datetime)@, groups.deep_view()),
{
    datetime.set(Slot::Cwyear, read_group(groups, 1));
    datetime.set(Slot::Cweek, read_group(groups, 2));
    datetime.set(Slot::Cwday, read_group(groups, 3));
}

/// Looks in `string` for a week date, such as `2006-w15-5`.
pub fn parse_iso_21(string: &mut String, datetime: &mut DateTime) -> (r: bool)
    ensures
        (r, final(string)@, final(datetime)@) == iso21_stage(old(string)@, old(datetime)@),
{
    match take_first(ISO21, true, false, string) {
        Some(groups) => {
            apply_iso_21(datetime, &groups);
            true
        },
        None => false,
    }
}

/// What a stage that reads one number into one field makes of `s` and `dt`.
pub open spec fn single_stage(
    pattern: Seq<char>,
    case_insensitive: bool,
    slot: Slot,
    s: Seq<char>,
    dt: Fields,
) -> (bool, Seq<char>, Fields) {
    match regex_captures(pattern, case_insensitive, false, s) {
        Some(m) => matched(m, put(dt, slot, group_number(m.1, 1))),
        None => (false, s, dt),
    }
}

/// Looks in `string` for `pattern` and writes the number of its group 1
/// into the field `slot`.
pub fn parse_single(
    pattern: &str,
    case_insensitive: bool,
    slot: Slot,
    string: &mut String,
    datetime: &mut DateTime,
) -> (r: bool)
    ensures
        (r, final(string)@, final(datetime)@) == single_stage(
            pattern@,
            case_insensitive,
            slot,
            old(string)@,
            old(datetime)@,
        ),
{
    match take_first(pattern, case_insensitive, false, string) {
        Some(groups) => {
            datetime.set(slot, read_group(&groups, 1));
            true
        },
        None => false,
    }
}

/// What the stage for a day of the week alone makes of `s` and `dt`.
pub open spec fn iso22_stage(s: Seq<char>, dt: Fields) -> (bool, Seq<char>, Fields) {
    single_stage(ISO22@, true, Slot::Cwday, s, dt)
}

/// Looks in `string` for a day of the week alone, such as `-w-5`.
pub fn parse_iso_22(string: &mut String, datetime: &mut DateTime) -> (r: bool)
    ensures
        (r, final(string)@, final(datetime)@) == iso22_stage(old(string)@, old(datetime)@),
{
    parse_single(ISO22, true, Slot::Cwday, string, datetime)
}

/// The record after month and day were read from groups 1 and 2.
pub open spec fn month_day_fields(dt: Fields, g: Seq<Option<Seq<char>>>) -> Fields {
    put(put(dt, Slot::Mon, group_number(g, 1)), Slot::Mday, group_number(g, 2))
}

/// What a stage for month and day without a year makes of `s` and `dt`.
pub open spec fn month_day_stage(pattern: Seq<char>, s: Seq<char>, dt: Fields) -> (
    bool,
    Seq<char>,
    Fields,
) {
    match regex_captures(pattern, false, false, s) {
        Some(m) => matched(m, month_day_fields(dt, m.1)),
        None => (false, s, dt),
    }
}

/// Looks in `string` for `pattern` and writes the numbers of its groups 1
/// and 2 into month and day.
pub fn parse_month_day(pattern: &str, string: &mut String, datetime: &mut DateTime) -> (r: bool)
    ensures
        (r, final(string)@, final(datetime)@) == month_day_stage(
            pattern@,
            old(string)@,
            old(datetime)@,
        ),
{
    match take_first(pattern, false, false, string) {
        Some(groups) => {
            datetime.set(Slot::Mon, read_group(&groups, 1));
            datetime.set(Slot::Mday, read_group(&groups, 2));
            true
        },
        None => false,
    }
}

/// What the stage for `--mm-dd` and `---dd` makes of `s` and `dt`.
pub open spec fn iso23_stage(s: Seq<char>, dt: Fields) -> (bool, Seq<char>, Fields) {
    month_day_stage(ISO23@, s, dt)
}

/// Looks in `string` for month and day, or day alone, behind dashes: `--11-29`
/// or `---29`.
pub fn parse_iso_23(string: &mut String, datetime: &mut DateTime) -> (r: bool)
    ensures
        (r, final(string)@, final(datetime)@) == iso23_stage(old(string)@, old(datetime)@),
{
    parse_month_day(ISO23, string, datetime)
}

/// What the stage for `--mmdd` and `--mm` makes of `s` and `dt`.
pub open spec fn iso24_stage(s: Seq<char>, dt: Fields) -> (bool, Seq<char>, Fields) {
    month_day_stage(ISO24@, s, dt)
}

/// Looks in `string` for month and day, or month alone, behind two dashes:
/// `--1129` or `--11`.
pub fn parse_iso_24(string: &mut String, datetime: &mut DateTime) -> (r: bool)
    ensures
        (r, final(string)@, final(datetime)@) == iso24_stage(old(string)@, old(datetime)@),
{
    parse_month_day(ISO24, string, datetime)
}

/// The record after year and day of the year were read.
pub open spec fn iso25_fields(dt: Fields, g: Seq<Option<Seq<char>>>) -> Fields {
    put(put(dt, Slot::Year, group_number(g, 1)), Slot::Yday, group_number(g, 2))
}

/// What the stage for year and day of the year makes of `s` and `dt`: it
/// stands back where the numbers follow a decimal point.
pub open spec fn iso25_stage(s: Seq<char>, dt: Fields) -> (bool, Seq<char>, Fields) {
    if regex_captures(ISO25_GUARD@, false, false, s) is Some {
        (false, s, dt)
    } else {
        match regex_captures(ISO25@, false, false, s) {
            Some(m) => matched(m, iso25_fields(dt, m.1)),
            None => (false, s, dt),
        }
    }
}

/// Looks in `string` for a year and a day of the year, such as `2006-333`.
pub fn parse_iso_25(string: &mut String, datetime: &mut DateTime) -> (r: bool)
    ensures
        (r, final(string)@, final(datetime)@) == iso25_stage(old(string)@, old(datetime)@),
{
    if is_match(ISO25_GUARD, false, false, string.as_str()) {
        return false;
    }
    match take_first(ISO25, false, false, string) {
        Some(groups) => {
            datetime.set(Slot::Year, read_group(&groups, 1));
            datetime.set(Slot::Yday, read_group(&groups, 2));
            true
        },
        None => false,
    }
}

/// What the stage for a day of the year alone makes of `s` and `dt`: it
/// stands back where the dash follows a digit.
pub open spec fn iso26_stage(s: Seq<char>, dt: Fields) -> (bool, Seq<char>, Fields) {
    if regex_captures(ISO26_GUARD@, false, false, s) is Some {
        (false, s, dt)
    } else {
        single_stage(ISO26@, false, Slot::Yday, s, dt)
    }
}

/// Looks in `string` for a day of the year alone, such as `-333`.
pub fn parse_iso_26(string: &mut String, datetime: &mut DateTime) -> (r: bool)
    ensures
        (r, final(string)@, final(datetime)@) == iso26_stage(old(string)@, old(datetime)@),
{
    if is_match(ISO26_GUARD, false, false, string.as_str()) {
        return false;
    }
    parse_single(ISO26, false, Slot::Yday, string, datetime)
}

/// What the stage for week dates and dates without a year makes of `s` and
/// `dt`: its six notations in their order, the first that is found.
pub open spec fn iso2_stage(s: Seq<char>, dt: Fields) -> (bool, Seq<char>, Fields) {
    let a = iso21_stage(s, dt);
    let b = or_else(a, iso22_stage(a.1, a.2));
    let c = or_else(b, iso23_stage(b.1, b.2));
    let d = or_else(c, iso24_stage(c.1, c.2));
    let e = or_else(d, iso25_stage(d.1, d.2));
    or_else(e, iso26_stage(e.1, e.2))
}

/// Looks in `string` for a week date, a date without a year or a day of the
/// year.
pub fn parse_iso2(string: &mut String, datetime: &mut DateTime) -> (r: bool)
    ensures
        (r, final(string)@, final(datetime)@) == iso2_stage(old(string)@, old(datetime)@),
{
    if parse_iso_21(string, datetime) {
        return true;
    }
    if parse_iso_22(string, datetime) {
        return true;
    }
    if parse_iso_23(string, datetime) {
        return true;
    }
    if parse_iso_24(string, datetime) {
        return true;
    }
    if parse_iso_25(string, datetime) {
        return true;
    }
    parse_iso_26(string, datetime)
}

/// What the stage for a year behind an apostrophe makes of `s` and `dt`.
pub open spec fn year_stage(s: Seq<char>, dt: Fields) -> (bool, Seq<char>, Fields) {
    single_stage(YEAR@, false, Slot::Year, s, dt)
}

/// Looks in `string` for a year behind an apostrophe, such as `'99`.
pub fn parse_year(string: &mut String, datetime: &mut DateTime) -> (r: bool)
    ensures
        (r, final(string)@, final(datetime)@) == year_stage(old(string)@, old(datetime)@),
{
    parse_single(YEAR, false, Slot::Year, string, datetime)
}

/// The record after the name of a month was found.
pub open spec fn mon_fields(dt: Fields, g: Seq<Option<Seq<char>>>) -> Fields {
    match group(g, 1) {
        Some(name) => match number_up_to(month_digits(name), u64::MAX) {
            Some(n) => Fields { mon: Some(n), ..dt },
            None => dt,
        },
        None => dt,
    }
}

/// What the stage for a month name alone makes of `s` and `dt`.
pub open spec fn mon_stage(s: Seq<char>, dt: Fields) -> (bool, Seq<char>, Fields) {
    match regex_captures(MON@, true, false, s) {
        Some(m) => matched(m, mon_fields(dt, m.1)),
        None => (false, s, dt),
    }
}

/// Writes the month that a match of [`MON`] names into `datetime`.
pub fn apply_mon(datetime: &mut DateTime, groups: &Vec<Option<String>>)
    ensures
        final(datetime)@ == mon_fields(old(datetime)@, groups.deep_view()),
{
    match get_group(groups, 1) {
        Some(name) => match parse_number(months_num(name), u64::MAX) {
            Some(n) => {
                datetime.mon = Some(n);
            },
            None => {},
        },
        None => {},
    }
}

/// Looks in `string` for the name of a month.
pub fn parse_mon(string: &mut String, datetime: &mut DateTime) -> (r: bool)
    ensures
        (r, final(string)@, final(datetime)@) == mon_stage(old(string)@, old(datetime)@),
{
    match take_first(MON, true, false, string) {
        Some(groups) => {
            apply_mon(datetime, &groups);
            true
        },
        None => false,
    }
}

/// The record after a day of the month with its ordinal ending was found.
pub open spec fn mday_fields(dt: Fields, g: Seq<Option<Seq<char>>>) -> Fields {
    match group(g, 1) {
        Some(digits) => match number_up_to(digits, u64::MAX) {
            Some(n) => Fields { mday: Some(n), ..dt },
            None => dt,
        },
        None => dt,
    }
}

/// What the stage for a day of the month alone makes of `s` and `dt`.
pub open spec fn mday_stage(s: Seq<char>, dt: Fields) -> (bool, Seq<char>, Fields) {
    match regex_captures(MDAY@, true, false, s) {
        Some(m) => matched(m, mday_fields(dt, m.1)),
        None => (false, s, dt),
    }
}

/// Writes the day that a match of [`MDAY`] names into `datetime`.
pub fn apply_mday(datetime: &mut DateTime, groups: &Vec<Option<String>>)
    ensures
        final(datetime)@ == mday_fields(old(datetime)@, groups.deep_view()),
{
    match get_group(groups, 1) {
        Some(digits) => match parse_number(digits, u64::MAX) {
            Some(n) => {
                datetime.mday = Some(n);
            },
            None => {},
        },
        None => {},
    }
}

/// Looks in `string` for a day of the month with its ordinal ending, such
/// as `23rd`.
pub fn parse_mday(string: &mut String, datetime: &mut DateTime) -> (r: bool)
    ensures
        (r, final(string)@, final(datetime)@) == mday_stage(old(string)@, old(datetime)@),
{
    match take_first(MDAY, true, false, string) {
        Some(groups) => {
            apply_mday(datetime, &groups);
            true
        },
        None => false,
    }
}

/// What the stage for the era makes of `s` and `dt`.
pub open spec fn bc_stage(s: Seq<char>, dt: Fields) -> (bool, Seq<char>, Fields) {
    match regex_captures(BC@, true, true, s) {
        Some(m) => matched(m, Fields { bc: true, ..dt }),
        None => (false, s, dt),
    }
}

/// Looks in `string` for a mark of the era before the common era and sets
/// the era flag.
pub fn parse_bc(string: &mut String, datetime: &mut DateTime) -> (r: bool)
    ensures
        (r, final(string)@, final(datetime)@) == bc_stage(old(string)@, old(datetime)@),
{
    match take_first(BC, true, true, string) {
        Some(_groups) => {
            datetime.bc = true;
            true
        },
        None => false,
    }
}

/// The record after a loose number `n` was found: beside an hour and no day
/// it is the day, if it is from 1 to 31; beside a day and no hour it is the
/// hour, if it is from 0 to 24.
pub open spec fn loose_number(dt: Fields, n: i64) -> Fields {
    if dt.hour is Some && dt.mday is None && 1 <= n <= 31 {
        Fields { mday: Some(n as u64), ..dt }
    } else if dt.mday is Some && dt.hour is None && 0 <= n <= 24 {
        Fields { hour: Some(n as u64), ..dt }
    } else {
        dt
    }
}

/// The record after the text turned out to be one short number.
pub open spec fn frag_fields(dt: Fields, g: Seq<Option<Seq<char>>>) -> Fields {
    match group_number(g, 1) {
        Some(n) => loose_number(dt, n),
        None => dt,
    }
}

/// What the stage for a left-over number makes of `s` and `dt`.
pub open spec fn frag_stage(s: Seq<char>, dt: Fields) -> (bool, Seq<char>, Fields) {
    match regex_captures(FRAG@, true, true, s) {
        Some(m) => matched(m, frag_fields(dt, m.1)),
        None => (false, s, dt),
    }
}

/// Writes a loose number into `datetime`: see [`loose_number`].
pub fn apply_loose_number(datetime: &mut DateTime, n: i64)
    ensures
        final(datetime)@ == loose_number(old(datetime)@, n),
{
    if datetime.hour.is_some() && datetime.mday.is_none() && 1 <= n && n <= 31 {
        datetime.mday = Some(n as u64);
    } else if datetime.mday.is_some() && datetime.hour.is_none() && 0 <= n && n <= 24 {
        datetime.hour = Some(n as u64);
    }
}

/// Looks whether what is left of `string` is one number of one or two
/// digits, and takes it for the day or the hour, whichever is missing.
pub fn parse_frag(string: &mut String, datetime: &mut DateTime) -> (r: bool)
    ensures
        (r, final(string)@, final(datetime)@) == frag_stage(old(string)@, old(datetime)@),
{
    match take_first(FRAG, true, true, string) {
        Some(groups) => {
            match read_group(&groups, 1) {
                Some(n) => {
                    apply_loose_number(datetime, n);
                },
                None => {},
            }
            true
        },
        None => false,
    }
}

/// The result of the next stage, which runs only where no earlier stage of
/// its group has matched and what is left of the text holds a character of
/// each class in `classes`; else the earlier result.
pub open spec fn unless(
    earlier: (bool, Seq<char>, Fields),
    classes: u64,
    next: (bool, Seq<char>, Fields),
) -> (bool, Seq<char>, Fields) {
    if !earlier.0 && has_classes(earlier.1, classes) {
        next
    } else {
        earlier
    }
}

/// What the two opening stages make of `s` and `dt`: the week day, on a
/// text with a letter, and the time of day, on a text with a digit.
pub open spec fn openers(s: Seq<char>, dt: Fields) -> (Seq<char>, Fields) {
    let a = if has_classes(s, HAVE_ALPHA) {
        day_stage(s, dt)
    } else {
        (s, dt)
    };
    if has_classes(a.0, HAVE_DIGIT) {
        time_stage(a.0, a.1)
    } else {
        a
    }
}

/// What the stages for dates with a month name or with dashes make of `s`
/// and `dt`: European order, American order, dashes, Japanese era, month
/// name between dashes; the first that is found.
pub open spec fn named_dates(s: Seq<char>, dt: Fields) -> (bool, Seq<char>, Fields) {
    let c = if has_classes(s, HAVE_ALPHA | HAVE_DIGIT) {
        let first = eu_stage(s, dt);
        or_else(first, us_stage(first.1, first.2))
    } else {
        (false, s, dt)
    };
    let d = unless(c, HAVE_DIGIT | HAVE_DASH, iso_stage(c.1, c.2));
    let e = unless(d, HAVE_DIGIT | HAVE_DOT, jis_stage(d.1, d.2));
    unless(e, HAVE_ALPHA | HAVE_DIGIT | HAVE_DASH, vms_stage(e.1, e.2))
}

/// What the stages for dates in numbers make of an earlier result: slashes,
/// dots, week dates and dates without a year; the first that is found.
pub open spec fn numeric_dates(f: (bool, Seq<char>, Fields)) -> (bool, Seq<char>, Fields) {
    let g = unless(f, HAVE_DIGIT | HAVE_SLASH, sla_stage(f.1, f.2));
    let h = unless(g, HAVE_DIGIT | HAVE_DOT, dot_stage(g.1, g.2));
    unless(h, HAVE_DIGIT, iso2_stage(h.1, h.2))
}

/// What the stages for single parts of a date make of an earlier result: a
/// year behind an apostrophe, a month name, a day with its ordinal ending,
/// digits without separators; the first that is found.
pub open spec fn lone_parts(i: (bool, Seq<char>, Fields)) -> (bool, Seq<char>, Fields) {
    let j = unless(i, HAVE_DIGIT, year_stage(i.1, i.2));
    let k = unless(j, HAVE_ALPHA, mon_stage(j.1, j.2));
    let l = unless(k, HAVE_DIGIT, mday_stage(k.1, k.2));
    unless(l, HAVE_DIGIT, compact_stage(l.1, l.2))
}

/// What the two closing stages make of `s` and `dt`: the era mark, on a
/// text with a letter, and a left-over number, on a text with a digit.
pub open spec fn closers(s: Seq<char>, dt: Fields) -> (Seq<char>, Fields) {
    let n = if has_classes(s, HAVE_ALPHA) {
        let era = bc_stage(s, dt);
        (era.1, era.2)
    } else {
        (s, dt)
    };
    if has_classes(n.0, HAVE_DIGIT) {
        let loose = frag_stage(n.0, n.1);
        (loose.1, loose.2)
    } else {
        n
    }
}

/// What the stages make of the text `s` and the record `dt`, in their fixed
/// order: the text that is left and the record.
///
/// The week day and the time of day come first and keep nothing from
/// running. Of the notations for a date only the first that is found
/// counts. The era mark and a left-over number come last. Each stage runs
/// only on a text that holds the classes of characters it needs.
pub open spec fn cascade(s: Seq<char>, dt: Fields) -> (Seq<char>, Fields) {
    let b = openers(s, dt);
    let m = lone_parts(numeric_dates(named_dates(b.0, b.1)));
    closers(m.1, m.2)
}

/// Runs the two opening stages: see [`openers`].
pub fn run_openers(string: &mut String, datetime: &mut DateTime)
    ensures
        (final(string)@, final(datetime)@) == openers(old(string)@, old(datetime)@),
{
    if check_classes(string.as_str(), HAVE_ALPHA) {
        parse_day(string, datetime);
    }
    if check_classes(string.as_str(), HAVE_DIGIT) {
        parse_time(string, datetime);
    }
}

/// Runs the stages for dates with a month name or with dashes: see
/// [`named_dates`].
pub fn run_named_dates(string: &mut String, datetime: &mut DateTime) -> (r: bool)
    ensures
        (r, final(string)@, final(datetime)@) == named_dates(old(string)@, old(datetime)@),
{
    let mut matched: bool = false;
    if check_classes(string.as_str(), HAVE_ALPHA | HAVE_DIGIT) {
        matched = parse_eu(string, datetime);
        if !matched {
            matched = parse_us(string, datetime);
        }
    }
    if !matched && check_classes(string.as_str(), HAVE_DIGIT | HAVE_DASH) {
        matched = parse_iso(string, datetime);
    }
    if !matched && check_classes(string.as_str(), HAVE_DIGIT | HAVE_DOT) {
        matched = parse_jis(string, datetime);
    }
    if !matched && check_classes(string.as_str(), HAVE_ALPHA | HAVE_DIGIT | HAVE_DASH) {
        matched = parse_vms(string, datetime);
    }
    matched
}

/// Runs the stages for dates in numbers, unless `earlier` says that a date
/// was found already: see [`numeric_dates`].
pub fn run_numeric_dates(earlier: bool, string: &mut String, datetime: &mut DateTime) -> (r: bool)
    ensures
        (r, final(string)@, final(datetime)@) == numeric_dates(
            (earlier, old(string)@, old(datetime)@),
        ),
{
    let mut matched: bool = earlier;
    if !matched && check_classes(string.as_str(), HAVE_DIGIT | HAVE_SLASH) {
        matched = parse_sla(string, datetime);
    }
    if !matched && check_classes(string.as_str(), HAVE_DIGIT | HAVE_DOT) {
        matched = parse_dot(string, datetime);
    }
    if !matched && check_classes(string.as_str(), HAVE_DIGIT) {
        matched = parse_iso2(string, datetime);
    }
    matched
}

/// Runs the stages for single parts of a date, unless `earlier` says that
/// a date was found already: see [`lone_parts`].
pub fn run_lone_parts(earlier: bool, string: &mut String, datetime: &mut DateTime) -> (r: bool)
    ensures
        (r, final(string)@, final(datetime)@) == lone_parts(
            (earlier, old(string)@, old(datetime)@),
        ),
{
    let mut matched: bool = earlier;
    if !matched && check_classes(string.as_str(), HAVE_DIGIT) {
        matched = parse_year(string, datetime);
    }
    if !matched && check_classes(string.as_str(), HAVE_ALPHA) {
        matched = parse_mon(string, datetime);
    }
    if !matched && check_classes(string.as_str(), HAVE_DIGIT) {
        matched = parse_mday(string, datetime);
    }
    if !matched && check_classes(string.as_str(), HAVE_DIGIT) {
        matched = parse_ddd(string, datetime);
    }
    matched
}

/// Runs the two closing stages: see [`closers`].
pub fn run_closers(string: &mut String, datetime: &mut DateTime)
    ensures
        (final(string)@, final(datetime)@) == closers(old(string)@, old(datetime)@),
{
    if check_classes(string.as_str(), HAVE_ALPHA) {
        parse_bc(string, datetime);
    }
    if check_classes(string.as_str(), HAVE_DIGIT) {
        parse_frag(string, datetime);
    }
}

/// Runs the stages over `string` in their fixed order: see [`cascade`].
pub fn run_cascade(string: &mut String, datetime: &mut DateTime)
    ensures
        (final(string)@, final(datetime)@) == cascade(old(string)@, old(datetime)@),
{
    run_openers(string, datetime);
    let named: bool = run_named_dates(string, datetime);
    let numeric: bool = run_numeric_dates(named, string, datetime);
    run_lone_parts(numeric, string, datetime);
    run_closers(string, datetime);
}

/// The year of the astronomical count for the year `y` before the common
/// era: 1 BC is year 0, 2 BC is year -1. `None` where it does not fit.
pub open spec fn era_year(y: i64) -> Option<i64> {
    fitting(1 - y)
}

/// The year in full for a year written with two digits: 0 to 68 are 2000 to
/// 2068, 69 to 99 are 1969 to 1999. Any other year is full already.
pub open spec fn full_year(y: i64) -> i64 {
    if 0 <= y <= 68 {
        (y + 2000) as i64
    } else if 69 <= y <= 99 {
        (y + 1900) as i64
    } else {
        y
    }
}

/// The record with its years counted astronomically where the era flag is
/// set.
pub open spec fn before_common_era(dt: Fields) -> Fields {
    if dt.bc {
        Fields {
            cwyear: match dt.cwyear {
                Some(y) => era_year(y),
                None => None,
            },
            year: match dt.year {
                Some(y) => era_year(y),
                None => None,
            },
            ..dt
        }
    } else {
        dt
    }
}

/// The record with its years in full where century completion is still
/// asked for; the request itself is cleared.
pub open spec fn completed(dt: Fields) -> Fields {
    if dt.comp == Some(true) {
        Fields {
            cwyear: match dt.cwyear {
                Some(y) => Some(full_year(y)),
                None => None,
            },
            year: match dt.year {
                Some(y) => Some(full_year(y)),
                None => None,
            },
            comp: None,
            ..dt
        }
    } else {
        Fields { comp: None, ..dt }
    }
}

/// The record with the offset of its zone, where it has a zone and no
/// offset yet.
pub open spec fn with_offset(dt: Fields) -> Fields {
    match dt.zone {
        Some(z) => if dt.offset is None {
            Fields { offset: zone_to_diff(z), ..dt }
        } else {
            dt
        },
        None => dt,
    }
}

/// What is done to the record once the stages have run: era, century,
/// offset.
pub open spec fn finished(dt: Fields) -> Fields {
    with_offset(completed(before_common_era(dt)))
}

/// The fields that `text` gives and what the stages left of it, with
/// century completion asked for or not.
#[verifier::opaque]
pub open spec fn parsed(text: Seq<char>, comp: bool) -> (Fields, Seq<char>) {
    let end = cascade(normalized(text), Fields { comp: Some(comp), ..no_fields() });
    (finished(end.1), trimmed(end.0))
}

/// Counts the year `y` before the common era astronomically: `1 - y`, or
/// `None` where that does not fit in 64 bits.
pub fn bc_year(y: i64) -> (r: Option<i64>)
    ensures
        r == era_year(y),
        y >= i64::MIN + 2 ==> r == Some((1 - y) as i64),
{
    fit(1 - y as i128)
}

/// Completes a year of two digits: 0 to 68 become 2000 to 2068, 69 to 99
/// become 1969 to 1999. Any other year is returned as it is.
pub fn complete_year(y: i64) -> (r: i64)
    ensures
        r == full_year(y),
        0 <= y <= 68 ==> r == y + 2000,
        69 <= y <= 99 ==> r == y + 1900,
        (y < 0 || y > 99) ==> r == y,
{
    if 0 <= y && y <= 99 {
        if y >= 69 {
            y + 1900
        } else {
            y + 2000
        }
    } else {
        y
    }
}

/// Counts the years of `datetime` astronomically where its era flag is set.
pub fn apply_era(datetime: &mut DateTime)
    ensures
        final(datetime)@ == before_common_era(old(datetime)@),
{
    if datetime.bc {
        datetime.cwyear = match datetime.cwyear {
            Some(y) => bc_year(y),
            None => None,
        };
        datetime.year = match datetime.year {
            Some(y) => bc_year(y),
            None => None,
        };
    }
}

/// Completes the years of `datetime` where completion is still asked for,
/// and clears the request.
pub fn apply_completion(datetime: &mut DateTime)
    ensures
        final(datetime)@ == completed(old(datetime)@),
{
    let wanted: bool = match datetime.comp {
        Some(c) => c,
        None => false,
    };
    datetime.comp = None;
    if wanted {
        datetime.cwyear = match datetime.cwyear {
            Some(y) => Some(complete_year(y)),
            None => None,
        };
        datetime.year = match datetime.year {
            Some(y) => Some(complete_year(y)),
            None => None,
        };
    }
}

/// Resolves the zone of `datetime` to an offset where it has none yet.
pub fn apply_offset_of_zone(datetime: &mut DateTime)
    ensures
        final(datetime)@ == with_offset(old(datetime)@),
{
    if datetime.offset.is_none() {
        let resolved: Option<i64> = match &datetime.zone {
            Some(z) => date_zone_to_diff(z.as_str()),
            None => None,
        };
        datetime.offset = resolved;
    }
}

/// Extracts the calendar fields that `string` gives and returns them with
/// what no stage has used of the text.
///
/// Runs of characters that no date is written with become single spaces
/// first. With `comp`, a year from 0 to 99 that was written with at most
/// two digits and no sign is completed to a year of four digits.
pub fn date_parse2(string: &str, comp: bool) -> (r: (DateTime, String))
    ensures
        (r.0@, r.1@) == parsed(string@, comp),
        r.0@.comp is None,
{
    proof {
        reveal(parsed);
    }
    let mut text: String = normalize(string);
    let mut datetime: DateTime = DateTime::default();
    datetime.comp = Some(comp);
    run_cascade(&mut text, &mut datetime);
    apply_era(&mut datetime);
    apply_completion(&mut datetime);
    apply_offset_of_zone(&mut datetime);
    let rest: String = String::from_str(trim(text.as_str()));
    (datetime, rest)
}

/// Extracts the calendar fields that `string` gives. This never fails: a
/// field that the text does not give stays unset.
pub fn date_parse(string: &str, comp: bool) -> (r: DateTime)
    ensures
        r@ == parsed(string@, comp).0,
        r@.comp is None,
{
    let (datetime, _rest) = date_parse2(string, comp);
    datetime
}

} // verus!
