//! Calendar arithmetic on plain numbers: lengths of months, ranges of
//! fields, and carrying an offset from UTC through seconds, minutes, hours
//! and days.

use vstd::arithmetic::div_mod::{lemma_fundamental_div_mod, lemma_fundamental_div_mod_converse};
use vstd::prelude::*;
use vstd::string::*;
use crate::date_parser::text::join;
use crate::{Failure, ParseError};

verus! {

/// The ten digits as texts.
pub const DIGIT_TEXT: [&'static str; 10] = ["0", "1", "2", "3", "4", "5", "6", "7", "8", "9"];

/// The decimal digits of `n`, which is not negative, without leading zeros.
pub open spec fn digits_of(n: int) -> Seq<char>
    decreases n,
{
    if n < 10 {
        if n < 0 {
            Seq::empty()
        } else {
            DIGIT_TEXT[n]@
        }
    } else {
        digits_of(n / 10) + DIGIT_TEXT[n % 10]@
    }
}

/// `v` written in decimal, with a `-` in front where it is negative.
pub open spec fn decimal_text(v: int) -> Seq<char> {
    if v < 0 {
        "-"@ + digits_of(-v)
    } else {
        digits_of(v)
    }
}

/// Writes `n` in decimal.
pub fn unsigned_decimal(n: u64) -> (r: String)
    ensures
        r@ == digits_of(n as int),
    decreases n,
{
    if n < 10 {
        String::from_str(DIGIT_TEXT[n as usize])
    } else {
        let mut out: String = unsigned_decimal(n / 10);
        out.append(DIGIT_TEXT[(n % 10) as usize]);
        out
    }
}

/// Writes `v` in decimal.
pub fn decimal(v: i64) -> (r: String)
    ensures
        r@ == decimal_text(v as int),
{
    if v < 0 {
        let magnitude: u64 = (-(v + 1)) as u64 + 1;
        let digits: String = unsigned_decimal(magnitude);
        join("-", digits.as_str())
    } else {
        unsigned_decimal(v as u64)
    }
}

/// The failure that names a field and the value that is outside its range.
pub open spec fn out_of_range(field: Seq<char>, value: int) -> Failure {
    Failure::OutOfRange(field, decimal_text(value))
}

/// Makes the failure that names a field and the value that is outside its
/// range.
pub fn range_error(field: &str, value: i64) -> (r: ParseError)
    ensures
        r@ == out_of_range(field@, value as int),
{
    ParseError::OutOfRangeError(String::from_str(field), decimal(value))
}

/// Whether `y` is a leap year of the Gregorian calendar.
pub open spec fn is_leap(y: int) -> bool {
    (y % 4 == 0 && y % 100 != 0) || y % 400 == 0
}

/// The number of days of month `m` in year `y`, for `m` from 1 to 12.
pub open spec fn days_in_month(y: int, m: int) -> int {
    if m == 2 {
        if is_leap(y) {
            29
        } else {
            28
        }
    } else if m == 4 || m == 6 || m == 9 || m == 11 {
        30
    } else {
        31
    }
}

/// The number of days of month `m` in year `y`, or the failure that names
/// the month where `m` is not from 1 to 12.
pub open spec fn month_length(y: int, m: int) -> Result<int, Failure> {
    if 1 <= m <= 12 {
        Ok(days_in_month(y, m))
    } else {
        Err(out_of_range("month"@, m))
    }
}

/// The number of days of month `m` in year `y`.
///
/// Fails, naming the month, where `m` is not from 1 to 12.
pub fn month_days(y: i32, m: i32) -> (r: Result<i32, ParseError>)
    ensures
        match r {
            Ok(d) => month_length(y as int, m as int) == Ok::<int, Failure>(d as int),
            Err(e) => month_length(y as int, m as int) == Err::<int, Failure>(e@),
        },
{
    if m < 1 || m > 12 {
        return Err(range_error("month", m as i64));
    }
    let leap: bool = (y % 4 == 0 && y % 100 != 0) || y % 400 == 0;
    if m == 2 {
        if leap {
            Ok(29)
        } else {
            Ok(28)
        }
    } else if m == 4 || m == 6 || m == 9 || m == 11 {
        Ok(30)
    } else {
        Ok(31)
    }
}

/// Quotient and remainder of `num` by `val`, the remainder never negative.
pub fn divmod(num: i32, val: i32) -> (r: (i32, i32))
    requires
        val != 0,
        !(num == i32::MIN && val == -1),
    ensures
        r.0 == num as int / val as int,
        r.1 == num as int % val as int,
{
    assert(i32::MIN <= num as int / val as int <= i32::MAX) by (nonlinear_arith)
        requires
            val != 0,
            !(num == i32::MIN && val == -1),
            i32::MIN <= num <= i32::MAX,
            i32::MIN <= val <= i32::MAX,
    ;
    assert(i32::MIN <= num as int % val as int <= i32::MAX) by (nonlinear_arith)
        requires
            val != 0,
            i32::MIN <= num <= i32::MAX,
            i32::MIN <= val <= i32::MAX,
    ;
    let q: i32 = match num.checked_div_euclid(val) {
        Some(q) => q,
        None => 0,
    };
    let m: i32 = match num.checked_rem_euclid(val) {
        Some(m) => m,
        None => 0,
    };
    (q, m)
}

/// A number small enough to be carried through the fields of a date
/// without leaving 32 bits: below two to the power of 30 in size.
pub open spec fn small(x: int) -> bool {
    -0x4000_0000 < x < 0x4000_0000
}

/// One step of carrying an offset forward through a field that counts up
/// to `base`: the part of `off` below `base` is added to `field`, and what
/// goes over moves on. Returns the field and the offset that is left, in
/// units of `base`. An offset that is a multiple of `base` leaves the field
/// alone.
pub open spec fn carry_up(field: int, off: int, base: int) -> (int, int) {
    if off % base != 0 {
        ((field + off % base) % base, off / base + (field + off % base) / base)
    } else {
        (field, off / base)
    }
}

/// One step of carrying an offset backward through a field that counts up
/// to `base`: the part of `off` below `base` is taken from `field`, and
/// what is missing is borrowed. Returns the field and the offset that is
/// left, in units of `base`.
pub open spec fn carry_down(field: int, off: int, base: int) -> (int, int) {
    if off % base != 0 {
        ((field - off % base) % base, off / base - (field - off % base) / base)
    } else {
        (field, off / base)
    }
}

/// The month after month `mon` of year `year`, with its year.
pub open spec fn next_month(year: int, mon: int) -> (int, int) {
    if mon == 12 {
        (year + 1, 1)
    } else {
        (year, mon + 1)
    }
}

/// The month before month `mon` of year `year`, with its year.
pub open spec fn last_month(year: int, mon: int) -> (int, int) {
    if mon == 1 {
        (year - 1, 12)
    } else {
        (year, mon - 1)
    }
}

/// A date whose day may lie beyond the end of its month, brought into the
/// calendar: what the day has too much is carried into the next month, and
/// on through as many months and years as it takes. Nothing happens where
/// the month is not from 1 to 12.
pub open spec fn rolled_forward(year: int, mon: int, day: int) -> (int, int, int)
    decreases day,
{
    if 1 <= mon <= 12 && day > days_in_month(year, mon) {
        let next = next_month(year, mon);
        let rest = day - days_in_month(year, mon);
        if rest <= days_in_month(next.0, next.1) {
            (next.0, next.1, rest)
        } else {
            rolled_forward(next.0, next.1, rest)
        }
    } else {
        (year, mon, day)
    }
}

/// A date whose day may lie before the first of its month, brought into
/// the calendar: what the day lacks is borrowed from the month before, and
/// on through as many months and years as it takes. Nothing happens where
/// the month is not from 1 to 12.
pub open spec fn rolled_back(year: int, mon: int, day: int) -> (int, int, int)
    decreases
            (if day < 1 {
                1 - day
            } else {
                0
            }),
{
    if 1 <= mon <= 12 && day < 1 {
        let last = last_month(year, mon);
        let rest = day + days_in_month(last.0, last.1);
        if rest >= 1 {
            (last.0, last.1, rest)
        } else {
            rolled_back(last.0, last.1, rest)
        }
    } else {
        (year, mon, day)
    }
}

/// The date `days` whole days after the day `day` of month `mon` of year
/// `year`. No days leave the date as it is.
pub open spec fn days_later(year: int, mon: int, day: int, days: int) -> (int, int, int) {
    if days == 0 {
        (year, mon, day)
    } else {
        rolled_forward(year, mon, day + days)
    }
}

/// The date `days` whole days before the day `day` of month `mon` of year
/// `year`. No days leave the date as it is.
pub open spec fn days_earlier(year: int, mon: int, day: int, days: int) -> (int, int, int) {
    if days == 0 {
        (year, mon, day)
    } else {
        rolled_back(year, mon, day - days)
    }
}

/// The fields of a local time moved by its offset `off` from UTC, so that
/// they tell the same moment in UTC: east of Greenwich (`off` positive) the
/// fields move back, west of it forward. Seconds carry into minutes, minutes
/// into hours, hours into days, and days that leave their month are carried
/// through as many months and years as it takes.
pub open spec fn moved(year: int, mon: int, day: int, hour: int, min: int, sec: int, off: int) -> (
    int,
    int,
    int,
    int,
    int,
    int,
) {
    if off < 0 {
        let s = carry_up(sec, -off, 60);
        let m = carry_up(min, s.1, 60);
        let h = carry_up(hour, m.1, 24);
        let d = days_later(year, mon, day, h.1);
        (d.0, d.1, d.2, h.0, m.0, s.0)
    } else if off > 0 {
        let s = carry_down(sec, off, 60);
        let m = carry_down(min, s.1, 60);
        let h = carry_down(hour, m.1, 24);
        let d = days_earlier(year, mon, day, h.1);
        (d.0, d.1, d.2, h.0, m.0, s.0)
    } else {
        (year, mon, day, hour, min, sec)
    }
}

/// Whether `x` fits in 32 bits.
pub open spec fn fits32(x: int) -> bool {
    i32::MIN <= x <= i32::MAX
}

/// Whether `x` is below two to the power of 33 in size.
pub open spec fn modest(x: int) -> bool {
    -0x2_0000_0000 < x < 0x2_0000_0000
}

/// Quotient and remainder of `num` by 24 or 60, the remainder never
/// negative.
pub fn divmod_wide(num: i64, val: i64) -> (r: (i64, i64))
    requires
        val == 60 || val == 24,
    ensures
        r.0 == num as int / val as int,
        r.1 == num as int % val as int,
{
    let q: i64 = match num.checked_div_euclid(val) {
        Some(q) => q,
        None => 0,
    };
    let m: i64 = match num.checked_rem_euclid(val) {
        Some(m) => m,
        None => 0,
    };
    (q, m)
}

/// Carries one field forward: see [`carry_up`].
pub fn step_up(field: i64, off: i64, base: i64) -> (r: (i64, i64))
    requires
        fits32(field as int),
        modest(off as int),
        base == 60 || base == 24,
    ensures
        (r.0 as int, r.1 as int) == carry_up(field as int, off as int, base as int),
        fits32(r.0 as int),
        modest(r.1 as int),
{
    let (rest, o) = divmod_wide(off, base);
    if o != 0 {
        let (up, f) = divmod_wide(field + o, base);
        (f, rest + up)
    } else {
        (field, rest)
    }
}

/// Carries one field backward: see [`carry_down`].
pub fn step_down(field: i64, off: i64, base: i64) -> (r: (i64, i64))
    requires
        fits32(field as int),
        modest(off as int),
        base == 60 || base == 24,
    ensures
        (r.0 as int, r.1 as int) == carry_down(field as int, off as int, base as int),
        fits32(r.0 as int),
        modest(r.1 as int),
{
    let (rest, o) = divmod_wide(off, base);
    if o != 0 {
        let (down, f) = divmod_wide(field - o, base);
        (f, rest - down)
    } else {
        (field, rest)
    }
}

/// Rolling a date forward never moves its year back, nor its day forward.
pub proof fn lemma_rolled_forward_bounds(year: int, mon: int, day: int)
    ensures
        year <= rolled_forward(year, mon, day).0 <= year + (if day > 0 {
            day / 28
        } else {
            0
        }),
        rolled_forward(year, mon, day).2 <= day,
        day >= 1 ==> rolled_forward(year, mon, day).2 >= 1,
        day < 1 ==> rolled_forward(year, mon, day) == (year, mon, day),
        rolled_forward(year, mon, day).1 == mon || 1 <= rolled_forward(year, mon, day).1 <= 12,
    decreases day,
{
    if 1 <= mon <= 12 && day > days_in_month(year, mon) {
        let len = days_in_month(year, mon);
        if mon == 12 {
            lemma_rolled_forward_bounds(year + 1, 1, day - len);
        } else {
            lemma_rolled_forward_bounds(year, mon + 1, day - len);
        }
        assert((day - len) / 28 <= day / 28 - 1);
    }
}

/// Rolling a date back never moves its year forward, nor its day back.
pub proof fn lemma_rolled_back_bounds(year: int, mon: int, day: int)
    ensures
        year - (if day < 1 {
            (28 - day) / 28
        } else {
            0
        }) <= rolled_back(year, mon, day).0 <= year,
        rolled_back(year, mon, day).2 >= day,
        day <= 31 ==> rolled_back(year, mon, day).2 <= 31,
        day >= 1 ==> rolled_back(year, mon, day) == (year, mon, day),
        rolled_back(year, mon, day).1 == mon || 1 <= rolled_back(year, mon, day).1 <= 12,
    decreases
            (if day < 1 {
                1 - day
            } else {
                0
            }),
{
    if 1 <= mon <= 12 && day < 1 {
        if mon == 1 {
            let len = days_in_month(year - 1, 12);
            lemma_rolled_back_bounds(year - 1, 12, day + len);
            if day + len < 1 {
                assert((28 - (day + len)) / 28 <= (28 - day) / 28 - 1);
            }
        } else {
            let len = days_in_month(year, mon - 1);
            lemma_rolled_back_bounds(year, mon - 1, day + len);
            if day + len < 1 {
                assert((28 - (day + len)) / 28 <= (28 - day) / 28 - 1);
            }
        }
    }
}

/// The number of days of month `m` in year `y`.
pub fn month_len(y: i32, m: i64) -> (r: i64)
    requires
        1 <= m <= 12,
    ensures
        r == days_in_month(y as int, m as int),
{
    match month_days(y, m as i32) {
        Ok(days) => days as i64,
        Err(_) => 0,
    }
}

/// Brings a date whose day may lie beyond the end of its month into the
/// calendar: see [`rolled_forward`].
pub fn roll_forward(year: i32, mon: i64, day: i64) -> (r: (i32, i64, i64))
    requires
        fits32(rolled_forward(year as int, mon as int, day as int).0),
    ensures
        (r.0 as int, r.1 as int, r.2 as int) == rolled_forward(year as int, mon as int, day as int),
{
    let mut y: i32 = year;
    let mut m: i64 = mon;
    let mut t: i64 = day;
    while 1 <= m && m <= 12 && t > month_len(y, m)
        invariant
            rolled_forward(y as int, m as int, t as int) == rolled_forward(
                year as int,
                mon as int,
                day as int,
            ),
            fits32(rolled_forward(year as int, mon as int, day as int).0),
        decreases t,
    {
        let len: i64 = month_len(y, m);
        proof {
            if m == 12 {
                lemma_rolled_forward_bounds(y + 1, 1, t - len);
            } else {
                lemma_rolled_forward_bounds(y as int, m + 1, t - len);
            }
        }
        t = t - len;
        if m == 12 {
            m = 1;
            y = y + 1;
        } else {
            m = m + 1;
        }
    }
    (y, m, t)
}

/// Brings a date whose day may lie before the first of its month into the
/// calendar: see [`rolled_back`].
pub fn roll_back(year: i32, mon: i64, day: i64) -> (r: (i32, i64, i64))
    requires
        fits32(rolled_back(year as int, mon as int, day as int).0),
    ensures
        (r.0 as int, r.1 as int, r.2 as int) == rolled_back(year as int, mon as int, day as int),
{
    let mut y: i32 = year;
    let mut m: i64 = mon;
    let mut t: i64 = day;
    while 1 <= m && m <= 12 && t < 1
        invariant
            rolled_back(y as int, m as int, t as int) == rolled_back(
                year as int,
                mon as int,
                day as int,
            ),
            fits32(rolled_back(year as int, mon as int, day as int).0),
        decreases
                (if t < 1 {
                    1 - t
                } else {
                    0
                }),
    {
        proof {
            if m == 1 {
                lemma_rolled_back_bounds(y - 1, 12, t + days_in_month(y - 1, 12));
            } else {
                lemma_rolled_back_bounds(y as int, m - 1, t + days_in_month(y as int, m - 1));
            }
        }
        if m == 1 {
            m = 12;
            y = y - 1;
        } else {
            m = m - 1;
        }
        t = t + month_len(y, m);
    }
    (y, m, t)
}

/// Moves the fields of a local time by its offset `off` from UTC, given in
/// seconds and east positive, so that they tell the same moment in UTC.
///
/// Days that leave their month are carried through as many months and
/// years as it takes, so that the moved fields of a date and a time of day
/// are a date and a time of day again, the offset earlier or later. The
/// moved fields must fit in 32 bits; with offset zero, where nothing moves,
/// every input does.
pub fn apply_offset(year: i32, mon: i32, day: i32, hour: i32, min: i32, sec: i32, off: i32) -> (r: (
    i32,
    i32,
    i32,
    i32,
    i32,
    i32,
))
    requires
        ({
            let to = moved(
                year as int,
                mon as int,
                day as int,
                hour as int,
                min as int,
                sec as int,
                off as int,
            );
            fits32(to.0) && fits32(to.2)
        }),
    ensures
        (r.0 as int, r.1 as int, r.2 as int, r.3 as int, r.4 as int, r.5 as int) == moved(
            year as int,
            mon as int,
            day as int,
            hour as int,
            min as int,
            sec as int,
            off as int,
        ),
        valid_fields(
            year as int,
            mon as int,
            day as int,
            hour as int,
            min as int,
            sec as int,
        ) ==> valid_fields(r.0 as int, r.1 as int, r.2 as int, r.3 as int, r.4 as int, r.5 as int)
            && moment(r.0 as int, r.1 as int, r.2 as int, r.3 as int, r.4 as int, r.5 as int)
            == moment(year as int, mon as int, day as int, hour as int, min as int, sec as int)
            - off,
{
    proof {
        if valid_fields(year as int, mon as int, day as int, hour as int, min as int, sec as int) {
            lemma_moved_keeps_moment(
                year as int,
                mon as int,
                day as int,
                hour as int,
                min as int,
                sec as int,
                off as int,
            );
        }
    }
    if off < 0 {
        let (s, left) = step_up(sec as i64, -(off as i64), 60);
        let (mi, left) = step_up(min as i64, left, 60);
        let (h, days) = step_up(hour as i64, left, 24);
        if days == 0 {
            return (year, mon, day, h as i32, mi as i32, s as i32);
        }
        proof {
            lemma_rolled_forward_bounds(year as int, mon as int, day + days);
        }
        let (y, m, d) = roll_forward(year, mon as i64, day as i64 + days);
        (y, m as i32, d as i32, h as i32, mi as i32, s as i32)
    } else if 0 < off {
        let (s, left) = step_down(sec as i64, off as i64, 60);
        let (mi, left) = step_down(min as i64, left, 60);
        let (h, days) = step_down(hour as i64, left, 24);
        if days == 0 {
            return (year, mon, day, h as i32, mi as i32, s as i32);
        }
        proof {
            lemma_rolled_back_bounds(year as int, mon as int, day - days);
        }
        let (y, m, d) = roll_back(year, mon as i64, day as i64 - days);
        (y, m as i32, d as i32, h as i32, mi as i32, s as i32)
    } else {
        (year, mon, day, hour, min, sec)
    }
}

/// Fields that are below two to the power of 30 in size stay within 32
/// bits when any offset is carried through them.
pub proof fn lemma_small_moved_fits(
    year: int,
    mon: int,
    day: int,
    hour: int,
    min: int,
    sec: int,
    off: int,
)
    requires
        small(year),
        small(mon),
        small(day),
        small(hour),
        small(min),
        small(sec),
        fits32(off),
    ensures
        ({
            let to = moved(year, mon, day, hour, min, sec, off);
            fits32(to.0) && fits32(to.1) && fits32(to.2) && fits32(to.3) && fits32(to.4)
                && fits32(to.5)
        }),
{
    if off < 0 {
        let s = carry_up(sec, -off, 60);
        let m = carry_up(min, s.1, 60);
        let h = carry_up(hour, m.1, 24);
        assert(-60_000_000 < s.1 < 60_000_000);
        assert(-20_000_000 < m.1 < 20_000_000);
        assert(-50_000_000 < h.1 < 50_000_000);
        lemma_rolled_forward_bounds(year, mon, day + h.1);
    } else if off > 0 {
        let s = carry_down(sec, off, 60);
        let m = carry_down(min, s.1, 60);
        let h = carry_down(hour, m.1, 24);
        assert(-60_000_000 < s.1 < 60_000_000);
        assert(-20_000_000 < m.1 < 20_000_000);
        assert(-50_000_000 < h.1 < 50_000_000);
        lemma_rolled_back_bounds(year, mon, day - h.1);
    }
}

/// Year, month and day where they make a date of the calendar; else the
/// failure that names the month, where it is not from 1 to 12, or the day,
/// where the month has no such day.
pub open spec fn checked_date(year: int, month: int, day: int) -> Result<(int, int, int), Failure> {
    if !(1 <= month <= 12) {
        Err(out_of_range("month"@, month))
    } else if !(1 <= day <= days_in_month(year, month)) {
        Err(out_of_range("day"@, day))
    } else {
        Ok((year, month, day))
    }
}

/// Hour, minute and second where they make a time of day; else the failure
/// that names the first of them that is outside its range.
pub open spec fn checked_time(hour: int, min: int, sec: int) -> Result<(int, int, int), Failure> {
    if !(0 <= hour <= 23) {
        Err(out_of_range("hour"@, hour))
    } else if !(0 <= min <= 59) {
        Err(out_of_range("minute"@, min))
    } else if !(0 <= sec <= 59) {
        Err(out_of_range("second"@, sec))
    } else {
        Ok((hour, min, sec))
    }
}

/// Checks that year, month and day make a date of the calendar: see
/// [`checked_date`].
pub fn check_date(year: i32, month: i64, day: i64) -> (r: Result<(), ParseError>)
    ensures
        match r {
            Ok(_) => checked_date(year as int, month as int, day as int) is Ok,
            Err(e) => checked_date(year as int, month as int, day as int) == Err::<
                (int, int, int),
                Failure,
            >(e@),
        },
{
    if month < 1 || month > 12 {
        return Err(range_error("month", month));
    }
    let max_days: i32 = match month_days(year, month as i32) {
        Ok(days) => days,
        Err(e) => {
            return Err(e);
        },
    };
    if day < 1 || day > max_days as i64 {
        return Err(range_error("day", day));
    }
    Ok(())
}

/// Checks that hour, minute and second make a time of day: see
/// [`checked_time`].
pub fn check_time(hour: i64, min: i64, sec: i64) -> (r: Result<(), ParseError>)
    ensures
        match r {
            Ok(_) => checked_time(hour as int, min as int, sec as int) is Ok,
            Err(e) => checked_time(hour as int, min as int, sec as int) == Err::<
                (int, int, int),
                Failure,
            >(e@),
        },
{
    if hour < 0 || hour > 23 {
        return Err(range_error("hour", hour));
    }
    if min < 0 || min > 59 {
        return Err(range_error("minute", min));
    }
    if sec < 0 || sec > 59 {
        return Err(range_error("second", sec));
    }
    Ok(())
}

/// Checks that year, month and day make a date of the calendar.
pub fn validated_ymd(year: i32, month: i32, day: i32) -> (r: Result<(i32, u32, u32), ParseError>)
    ensures
        match r {
            Ok(d) => checked_date(year as int, month as int, day as int) == Ok::<
                (int, int, int),
                Failure,
            >((d.0 as int, d.1 as int, d.2 as int)),
            Err(e) => checked_date(year as int, month as int, day as int) == Err::<
                (int, int, int),
                Failure,
            >(e@),
        },
{
    match check_date(year, month as i64, day as i64) {
        Ok(_) => Ok((year, month as u32, day as u32)),
        Err(e) => Err(e),
    }
}

/// Checks that hour, minute and second make a time of day.
pub fn validated_hms(hour: i32, min: i32, sec: i32) -> (r: Result<(u32, u32, u32), ParseError>)
    ensures
        match r {
            Ok(t) => checked_time(hour as int, min as int, sec as int) == Ok::<
                (int, int, int),
                Failure,
            >((t.0 as int, t.1 as int, t.2 as int)),
            Err(e) => checked_time(hour as int, min as int, sec as int) == Err::<
                (int, int, int),
                Failure,
            >(e@),
        },
{
    match check_time(hour as i64, min as i64, sec as i64) {
        Ok(_) => Ok((hour as u32, min as u32, sec as u32)),
        Err(e) => Err(e),
    }
}

/// The number of leap years from year 0 up to, but without, year `y`.
pub open spec fn leaps_before(y: int) -> int {
    (y + 3) / 4 - (y + 99) / 100 + (y + 399) / 400
}

/// The number of days from the start of year 0 to the start of year `y`.
pub open spec fn days_before_year(y: int) -> int {
    365 * y + leaps_before(y)
}

/// The number of days of year `y` that lie before its month `m`.
pub open spec fn days_before_month(y: int, m: int) -> int
    decreases m,
{
    if m <= 1 {
        0
    } else {
        days_before_month(y, m - 1) + days_in_month(y, m - 1)
    }
}

/// The number of the day `d` of month `m` of year `y`, counted from the
/// start of year 0.
pub open spec fn day_number(y: int, m: int, d: int) -> int {
    days_before_year(y) + days_before_month(y, m) + d
}

/// The moment of a date and time of day, in seconds from the start of year
/// 0.
pub open spec fn moment(y: int, m: int, d: int, hour: int, min: int, sec: int) -> int {
    day_number(y, m, d) * 86400 + hour * 3600 + min * 60 + sec
}

/// Whether the six fields make a date of the calendar and a time of day.
pub open spec fn valid_fields(y: int, m: int, d: int, hour: int, min: int, sec: int) -> bool {
    &&& 1 <= m <= 12
    &&& 1 <= d <= days_in_month(y, m)
    &&& 0 <= hour <= 23
    &&& 0 <= min <= 59
    &&& 0 <= sec <= 59
}

/// The whole days by which an offset of `off` seconds moves a time of day:
/// negative where the moved time lies on an earlier day.
pub open spec fn days_moved(hour: int, min: int, sec: int, off: int) -> int {
    (hour * 3600 + min * 60 + sec - off) / 86400
}

/// A year has 365 days, and one more where it is a leap year: so many lie
/// before its December and in it.
pub proof fn lemma_year_length(y: int)
    ensures
        days_before_month(y, 12) + 31 == if is_leap(y) {
            366int
        } else {
            365int
        },
{
    let leap: int = if is_leap(y) {
        1
    } else {
        0
    };
    assert(days_before_month(y, 1) == 0);
    assert(days_before_month(y, 2) == 31);
    assert(days_before_month(y, 3) == 59 + leap);
    assert(days_before_month(y, 4) == 90 + leap);
    assert(days_before_month(y, 5) == 120 + leap);
    assert(days_before_month(y, 6) == 151 + leap);
    assert(days_before_month(y, 7) == 181 + leap);
    assert(days_before_month(y, 8) == 212 + leap);
    assert(days_before_month(y, 9) == 243 + leap);
    assert(days_before_month(y, 10) == 273 + leap);
    assert(days_before_month(y, 11) == 304 + leap);
    assert(days_before_month(y, 12) == 334 + leap);
}

/// Counting the multiples of `d` up to a number: the count grows by one
/// exactly where the number is a multiple itself.
pub proof fn lemma_multiples_step(y: int, d: int)
    requires
        d > 0,
    ensures
        (y + d) / d - (y + d - 1) / d == if y % d == 0 {
            1int
        } else {
            0int
        },
{
    let q = y / d;
    let r = y % d;
    lemma_fundamental_div_mod(y, d);
    assert(0 <= r < d) by (nonlinear_arith)
        requires
            d > 0,
            r == y % d,
    ;
    assert(y + d == (q + 1) * d + r) by (nonlinear_arith)
        requires
            y == d * q + r,
    ;
    lemma_fundamental_div_mod_converse(y + d, d, q + 1, r);
    if r == 0 {
        assert(y + d - 1 == q * d + (d - 1)) by (nonlinear_arith)
            requires
                y == d * q + r,
                r == 0,
        ;
        lemma_fundamental_div_mod_converse(y + d - 1, d, q, d - 1);
    } else {
        assert(y + d - 1 == (q + 1) * d + (r - 1)) by (nonlinear_arith)
            requires
                y == d * q + r,
        ;
        lemma_fundamental_div_mod_converse(y + d - 1, d, q + 1, r - 1);
    }
}

/// A multiple of `a` times `b` is a multiple of `a`.
pub proof fn lemma_multiple_of_factor(y: int, a: int, b: int)
    requires
        a > 0,
        b > 0,
        y % (a * b) == 0,
    ensures
        y % a == 0,
{
    let q = y / (a * b);
    assert(a * b > 0) by (nonlinear_arith)
        requires
            a > 0,
            b > 0,
    ;
    lemma_fundamental_div_mod(y, a * b);
    assert(y == (q * b) * a + 0) by (nonlinear_arith)
        requires
            y == (a * b) * q + 0,
    ;
    lemma_fundamental_div_mod_converse(y, a, q * b, 0);
}

/// One more leap year lies before the year after a leap year, and none
/// after any other year.
pub proof fn lemma_leap_step(y: int)
    ensures
        leaps_before(y + 1) - leaps_before(y) == if is_leap(y) {
            1int
        } else {
            0int
        },
{
    lemma_multiples_step(y, 4);
    lemma_multiples_step(y, 100);
    lemma_multiples_step(y, 400);
    if y % 400 == 0 {
        lemma_multiple_of_factor(y, 100, 4);
    }
    if y % 100 == 0 {
        lemma_multiple_of_factor(y, 4, 25);
    }
    assert(y + 1 + 3 == y + 4 && y + 1 + 99 == y + 100 && y + 1 + 399 == y + 400);
    assert(y + 4 - 1 == y + 3 && y + 100 - 1 == y + 99 && y + 400 - 1 == y + 399);
}

/// The first day of a month follows the last day of the month before it.
pub proof fn lemma_month_follows(y: int, m: int)
    requires
        1 <= m <= 12,
    ensures
        m < 12 ==> day_number(y, m + 1, 1) == day_number(y, m, days_in_month(y, m)) + 1,
        m == 12 ==> day_number(y + 1, 1, 1) == day_number(y, 12, 31) + 1,
{
    if m == 12 {
        lemma_year_length(y);
        lemma_leap_step(y);
        assert(days_before_month(y + 1, 1) == 0);
    } else {
        assert(days_before_month(y, m + 1) == days_before_month(y, m) + days_in_month(y, m));
    }
}

/// Rolling a day beyond the end of its month forward gives a date of the
/// calendar, and the same day counted from the start of year 0.
pub proof fn lemma_rolled_forward_day(y: int, m: int, d: int)
    requires
        1 <= m <= 12,
        1 <= d,
    ensures
        ({
            let r = rolled_forward(y, m, d);
            &&& 1 <= r.1 <= 12
            &&& 1 <= r.2 <= days_in_month(r.0, r.1)
            &&& day_number(r.0, r.1, r.2) == day_number(y, m, d)
        }),
    decreases d,
{
    if d > days_in_month(y, m) {
        lemma_month_follows(y, m);
        if m == 12 {
            lemma_rolled_forward_day(y + 1, 1, d - days_in_month(y, m));
            assert(days_before_month(y + 1, 1) == 0);
        } else {
            lemma_rolled_forward_day(y, m + 1, d - days_in_month(y, m));
        }
    }
}

/// Rolling a day before the first of its month back gives a date of the
/// calendar, and the same day counted from the start of year 0.
pub proof fn lemma_rolled_back_day(y: int, m: int, d: int)
    requires
        1 <= m <= 12,
        d <= days_in_month(y, m),
    ensures
        ({
            let r = rolled_back(y, m, d);
            &&& 1 <= r.1 <= 12
            &&& 1 <= r.2 <= days_in_month(r.0, r.1)
            &&& day_number(r.0, r.1, r.2) == day_number(y, m, d)
        }),
    decreases
            (if d < 1 {
                1 - d
            } else {
                0
            }),
{
    if d < 1 {
        if m == 1 {
            lemma_month_follows(y - 1, 12);
            lemma_rolled_back_day(y - 1, 12, d + days_in_month(y - 1, 12));
            assert(days_before_month(y, 1) == 0);
        } else {
            lemma_month_follows(y, m - 1);
            lemma_rolled_back_day(y, m - 1, d + days_in_month(y, m - 1));
        }
    }
}

/// Moving the fields of a local time by its offset gives the fields of the
/// same moment in UTC: for every date and time of day and every offset, the
/// moved fields make a date and a time of day again, and their moment is
/// that of the fields given less the offset.
pub proof fn lemma_moved_keeps_moment(
    y: int,
    m: int,
    d: int,
    hour: int,
    min: int,
    sec: int,
    off: int,
)
    requires
        valid_fields(y, m, d, hour, min, sec),
    ensures
        ({
            let r = moved(y, m, d, hour, min, sec, off);
            &&& valid_fields(r.0, r.1, r.2, r.3, r.4, r.5)
            &&& moment(r.0, r.1, r.2, r.3, r.4, r.5) == moment(y, m, d, hour, min, sec) - off
        }),
{
    let k = days_moved(hour, min, sec, off);
    if off < 0 {
        let s = carry_up(sec, -off, 60);
        let mi = carry_up(min, s.1, 60);
        let h = carry_up(hour, mi.1, 24);
        assert(s.0 + 60 * s.1 == sec - off);
        assert(mi.0 + 60 * mi.1 == min + s.1);
        assert(h.0 + 24 * h.1 == hour + mi.1);
        assert(h.0 * 3600 + mi.0 * 60 + s.0 + 86400 * h.1 == hour * 3600 + min * 60 + sec - off);
        assert(h.1 == k);
        assert(k >= 0);
        lemma_rolled_forward_day(y, m, d + k);
    } else if off > 0 {
        let s = carry_down(sec, off, 60);
        let mi = carry_down(min, s.1, 60);
        let h = carry_down(hour, mi.1, 24);
        assert(s.0 - 60 * s.1 == sec - off);
        assert(mi.0 - 60 * mi.1 == min - s.1);
        assert(h.0 - 24 * h.1 == hour - mi.1);
        assert(h.0 * 3600 + mi.0 * 60 + s.0 - 86400 * h.1 == hour * 3600 + min * 60 + sec - off);
        assert(-h.1 == k);
        assert(k <= 0);
        lemma_rolled_back_day(y, m, d + k);
    }
}

/// Every year has 365 days at least: so many lie between the starts of two
/// years for each year from the one to the other.
pub proof fn lemma_years_grow(a: int, b: int)
    requires
        a <= b,
    ensures
        days_before_year(b) - days_before_year(a) >= 365 * (b - a),
    decreases b - a,
{
    if a < b {
        lemma_years_grow(a, b - 1);
        lemma_leap_step(b - 1);
    }
}

/// No month has a negative number of days before it.
pub proof fn lemma_months_not_negative(y: int, m: int)
    ensures
        days_before_month(y, m) >= 0,
    decreases m,
{
    if m > 1 {
        lemma_months_not_negative(y, m - 1);
    }
}

/// The days before a month are the days before an earlier month and, at
/// least, that month's own.
pub proof fn lemma_months_grow(y: int, a: int, b: int)
    requires
        1 <= a <= b,
    ensures
        days_before_month(y, a) >= 0,
        a < b ==> days_before_month(y, b) >= days_before_month(y, a) + days_in_month(y, a),
        a == b ==> days_before_month(y, b) == days_before_month(y, a),
    decreases b,
{
    lemma_months_not_negative(y, a);
    if a < b {
        lemma_months_grow(y, a, b - 1);
    }
}

/// Two dates of the calendar that are the same day, counted from the start
/// of year 0, are the same date.
pub proof fn lemma_day_number_tells_date(y1: int, m1: int, d1: int, y2: int, m2: int, d2: int)
    requires
        1 <= m1 <= 12,
        1 <= d1 <= days_in_month(y1, m1),
        1 <= m2 <= 12,
        1 <= d2 <= days_in_month(y2, m2),
        day_number(y1, m1, d1) == day_number(y2, m2, d2),
    ensures
        y1 == y2 && m1 == m2 && d1 == d2,
{
    lemma_months_grow(y1, m1, 12);
    lemma_months_grow(y2, m2, 12);
    lemma_year_length(y1);
    lemma_year_length(y2);
    lemma_leap_step(y1);
    lemma_leap_step(y2);
    if y1 < y2 {
        lemma_years_grow(y1 + 1, y2);
        assert(day_number(y1, m1, d1) <= days_before_year(y1 + 1));
        assert(false);
    } else if y2 < y1 {
        lemma_years_grow(y2 + 1, y1);
        assert(day_number(y2, m2, d2) <= days_before_year(y2 + 1));
        assert(false);
    } else if m1 < m2 {
        lemma_months_grow(y1, m1, m2);
        assert(false);
    } else if m2 < m1 {
        lemma_months_grow(y1, m2, m1);
        assert(false);
    }
}

/// Two dates and times of day with the same moment are the same.
pub proof fn lemma_moment_tells_fields(
    y1: int,
    m1: int,
    d1: int,
    h1: int,
    mi1: int,
    s1: int,
    y2: int,
    m2: int,
    d2: int,
    h2: int,
    mi2: int,
    s2: int,
)
    requires
        valid_fields(y1, m1, d1, h1, mi1, s1),
        valid_fields(y2, m2, d2, h2, mi2, s2),
        moment(y1, m1, d1, h1, mi1, s1) == moment(y2, m2, d2, h2, mi2, s2),
    ensures
        y1 == y2 && m1 == m2 && d1 == d2 && h1 == h2 && mi1 == mi2 && s1 == s2,
{
    let t1 = h1 * 3600 + mi1 * 60 + s1;
    let t2 = h2 * 3600 + mi2 * 60 + s2;
    assert(0 <= t1 < 86400 && 0 <= t2 < 86400);
    assert(day_number(y1, m1, d1) == day_number(y2, m2, d2));
    assert(t1 == t2);
    assert(h1 == h2);
    assert(mi1 == mi2);
    lemma_day_number_tells_date(y1, m1, d1, y2, m2, d2);
}

/// Moving fields by an offset and then by the opposite offset gives the
/// fields one began with, for every date and time of day and every offset.
pub proof fn lemma_moved_there_and_back(
    y: int,
    m: int,
    d: int,
    hour: int,
    min: int,
    sec: int,
    off: int,
)
    requires
        valid_fields(y, m, d, hour, min, sec),
    ensures
        ({
            let r = moved(y, m, d, hour, min, sec, off);
            moved(r.0, r.1, r.2, r.3, r.4, r.5, -off) == (y, m, d, hour, min, sec)
        }),
{
    let r = moved(y, m, d, hour, min, sec, off);
    lemma_moved_keeps_moment(y, m, d, hour, min, sec, off);
    let b = moved(r.0, r.1, r.2, r.3, r.4, r.5, -off);
    lemma_moved_keeps_moment(r.0, r.1, r.2, r.3, r.4, r.5, -off);
    lemma_moment_tells_fields(b.0, b.1, b.2, b.3, b.4, b.5, y, m, d, hour, min, sec);
}

/// The number of the day `d` of month `m` within year `y`, from 1.
pub open spec fn day_of_year(y: int, m: int, d: int) -> int {
    days_before_month(y, m) + d
}

/// Counts the days of year `y` up to and with day `d` of month `m`.
pub fn ordinal(y: i32, m: u32, d: u32) -> (r: i32)
    requires
        1 <= m <= 12,
        1 <= d <= 31,
    ensures
        r == day_of_year(y as int, m as int, d as int),
        1 <= r <= 31 * m,
{
    let mut total: i32 = d as i32;
    let mut k: i32 = 1;
    while k < m as i32
        invariant
            1 <= k <= m <= 12,
            1 <= d <= 31,
            total == days_before_month(y as int, k as int) + d,
            1 <= total <= 31 * k,
        decreases m - k,
    {
        let len: i32 = match month_days(y, k) {
            Ok(days) => days,
            Err(_) => 0,
        };
        total = total + len;
        k = k + 1;
    }
    total
}

} // verus!
