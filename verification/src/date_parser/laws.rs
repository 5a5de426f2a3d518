//! What holds of extraction and composition as a whole: a field that is set
//! is never cleared again while the stages run; years of two digits and
//! years before the common era are completed by fixed rules; and the
//! reference instant fills only what is missing at the front.

use vstd::prelude::*;
use crate::date_parser::compact::{
    compact_stage, date_run, second_run, time_run, trailing_zone, COMPACT_PATTERN,
};
use crate::date_parser::names::{
    era_is_bc, has_classes, HAVE_ALPHA, HAVE_DASH, HAVE_DIGIT, HAVE_DOT,
};
use crate::date_parser::instant::Instant;
use crate::date_parser::parse::{
    before_common_era, cascade, closers, completed, eu_stage, finished, full_year, iso_stage,
    jis_stage, lone_parts, mday_stage, mon_stage, month_token, named_dates, numeric_dates,
    openers, or_else, unless, us_stage, vms11_stage, vms_stage, year_stage, ymd_stage, EU, ISO,
    US, VMS11, VMS12,
};
use crate::date_parser::pattern::{group, regex_captures};
use crate::date_parser::record::{
    keeps_fields, keeps_offset, lemma_put_keeps, put, Fields, Slot,
};
use crate::date_parser::calendar::{checked_date, checked_time};
use crate::date_parser::time::{
    composed, composed_plain, filled, gap, lacks_information, reference, resolved_locally,
    settled, Ambient, Parts,
};
use crate::Failure;
use crate::date_parser::triple::triple_fields;

verus! {

/// The state in which the stage for digits without separators is reached:
/// whether a date was found already, what is left of the text, and the
/// record.
pub open spec fn before_compact(s: Seq<char>, dt: Fields) -> (bool, Seq<char>, Fields) {
    let b = openers(s, dt);
    let i = numeric_dates(named_dates(b.0, b.1));
    let j = unless(i, HAVE_DIGIT, year_stage(i.1, i.2));
    let k = unless(j, HAVE_ALPHA, mon_stage(j.1, j.2));
    unless(k, HAVE_DIGIT, mday_stage(k.1, k.2))
}

/// Whether the stage for digits without separators runs on `s` and `dt`
/// and leaves the record without an offset: it has found a zone in square
/// brackets whose offset cannot be told.
pub open spec fn drops_offset(s: Seq<char>, dt: Fields) -> bool {
    let l = before_compact(s, dt);
    !l.0 && has_classes(l.1, HAVE_DIGIT) && compact_stage(l.1, l.2).2.offset is None
}

/// The opening stages clear no field.
pub proof fn lemma_openers_keep(s: Seq<char>, dt: Fields)
    ensures
        keeps_fields(dt, openers(s, dt).1),
        keeps_offset(dt, openers(s, dt).1),
{
    lemma_puts_keep();
}

/// Reading three tokens clears no field.
pub proof fn lemma_triple_keeps(
    dt: Fields,
    year: Option<Seq<char>>,
    month: Option<Seq<char>>,
    day: Option<Seq<char>>,
    is_bc: bool,
)
    ensures
        keeps_fields(dt, triple_fields(dt, year, month, day, is_bc)),
        keeps_offset(dt, triple_fields(dt, year, month, day, is_bc)),
{
}

/// The stage for dates in European order clears no field.
pub proof fn lemma_eu_keeps(s: Seq<char>, dt: Fields)
    ensures
        keeps_fields(dt, eu_stage(s, dt).2),
        keeps_offset(dt, eu_stage(s, dt).2),
{
    match regex_captures(EU@, true, true, s) {
        Some(m) => {
            lemma_triple_keeps(
                dt,
                group(m.1, 4),
                month_token(group(m.1, 2)),
                group(m.1, 1),
                era_is_bc(group(m.1, 3)),
            );
        },
        None => {},
    }
}

/// The stage for dates in American order clears no field.
pub proof fn lemma_us_keeps(s: Seq<char>, dt: Fields)
    ensures
        keeps_fields(dt, us_stage(s, dt).2),
        keeps_offset(dt, us_stage(s, dt).2),
{
    match regex_captures(US@, true, true, s) {
        Some(m) => {
            lemma_triple_keeps(
                dt,
                group(m.1, 4),
                month_token(group(m.1, 1)),
                group(m.1, 2),
                era_is_bc(group(m.1, 3)),
            );
        },
        None => {},
    }
}

/// A stage for three numbers with one separator clears no field.
pub proof fn lemma_ymd_keeps(
    pattern: Seq<char>,
    case_insensitive: bool,
    ignore_whitespace: bool,
    s: Seq<char>,
    dt: Fields,
)
    ensures
        keeps_fields(dt, ymd_stage(pattern, case_insensitive, ignore_whitespace, s, dt).2),
        keeps_offset(dt, ymd_stage(pattern, case_insensitive, ignore_whitespace, s, dt).2),
{
    match regex_captures(pattern, case_insensitive, ignore_whitespace, s) {
        Some(m) => {
            lemma_triple_keeps(dt, group(m.1, 1), group(m.1, 2), group(m.1, 3), false);
        },
        None => {},
    }
}

/// The stage for dates of a Japanese era clears no field.
pub proof fn lemma_jis_keeps(s: Seq<char>, dt: Fields)
    ensures
        keeps_fields(dt, jis_stage(s, dt).2),
        keeps_offset(dt, jis_stage(s, dt).2),
{
    lemma_puts_keep();
}

/// The stage for dates with a month name between dashes clears no field.
pub proof fn lemma_vms_keeps(s: Seq<char>, dt: Fields)
    ensures
        keeps_fields(dt, vms_stage(s, dt).2),
        keeps_offset(dt, vms_stage(s, dt).2),
{
    match regex_captures(VMS11@, true, true, s) {
        Some(m) => {
            lemma_triple_keeps(dt, group(m.1, 3), month_token(group(m.1, 2)), group(m.1, 1), false);
        },
        None => {},
    }
    let first = vms11_stage(s, dt);
    match regex_captures(VMS12@, true, true, first.1) {
        Some(m) => {
            lemma_triple_keeps(
                first.2,
                group(m.1, 3),
                month_token(group(m.1, 1)),
                group(m.1, 2),
                false,
            );
        },
        None => {},
    }
}

/// The stages for dates with a month name or with dashes clear no field.
pub proof fn lemma_named_dates_keep(s: Seq<char>, dt: Fields)
    ensures
        keeps_fields(dt, named_dates(s, dt).2),
        keeps_offset(dt, named_dates(s, dt).2),
{
    lemma_eu_keeps(s, dt);
    let first = eu_stage(s, dt);
    lemma_us_keeps(first.1, first.2);
    let c = if has_classes(s, HAVE_ALPHA | HAVE_DIGIT) {
        or_else(first, us_stage(first.1, first.2))
    } else {
        (false, s, dt)
    };
    lemma_ymd_keeps(ISO@, false, false, c.1, c.2);
    let d = unless(c, HAVE_DIGIT | HAVE_DASH, iso_stage(c.1, c.2));
    lemma_jis_keeps(d.1, d.2);
    let e = unless(d, HAVE_DIGIT | HAVE_DOT, jis_stage(d.1, d.2));
    lemma_vms_keeps(e.1, e.2);
}

/// The stages for dates in numbers clear no field.
pub proof fn lemma_numeric_dates_keep(f: (bool, Seq<char>, Fields))
    ensures
        keeps_fields(f.2, numeric_dates(f).2),
        keeps_offset(f.2, numeric_dates(f).2),
{
    lemma_puts_keep();
}

/// Writing numbers into fields clears no field, however often it is done.
pub proof fn lemma_puts_keep()
    ensures
        forall|d: Fields, slot: Slot, v: Option<i64>|
            keeps_fields(d, #[trigger] put(d, slot, v)) && put(d, slot, v).offset == d.offset,
{
    assert forall|d: Fields, slot: Slot, v: Option<i64>|
        keeps_fields(d, #[trigger] put(d, slot, v)) && put(d, slot, v).offset == d.offset by {
        lemma_put_keeps(d, slot, v);
    }
}

/// Reading a run of digits as a date clears no field.
pub proof fn lemma_date_run_keeps(dt: Fields, s: Seq<char>, negative: bool)
    ensures
        keeps_fields(dt, date_run(dt, s, negative)),
{
    lemma_puts_keep();
}

/// Reading a run of digits as a time clears no field.
pub proof fn lemma_time_run_keeps(dt: Fields, s: Seq<char>, negative: bool)
    ensures
        keeps_fields(dt, time_run(dt, s, negative)),
{
    lemma_puts_keep();
}

/// Reading a second run of digits clears no field.
pub proof fn lemma_second_run_keeps(dt: Fields, s: Seq<char>, with_fraction: bool)
    ensures
        keeps_fields(dt, second_run(dt, s, with_fraction)),
{
    lemma_puts_keep();
}

/// Reading a zone behind a run of digits clears no field of date and time.
pub proof fn lemma_trailing_zone_keeps(dt: Fields, z: Seq<char>)
    ensures
        keeps_fields(dt, trailing_zone(dt, z)),
{
}

/// The stage for digits without separators clears no field of date and
/// time.
pub proof fn lemma_compact_keeps(s: Seq<char>, dt: Fields)
    ensures
        keeps_fields(dt, compact_stage(s, dt).2),
{
    match regex_captures(COMPACT_PATTERN@, true, true, s) {
        Some(m) => {
            let g = m.1;
            match group(g, 2) {
                None => {},
                Some(first) => {
                    let negative = group(g, 1) == Some(seq!['-']);
                    let fraction = group(g, 4);
                    lemma_date_run_keeps(dt, first, negative);
                    lemma_time_run_keeps(dt, first, negative);
                    let a = if group(g, 3) is None && fraction is Some {
                        time_run(dt, first, negative)
                    } else {
                        date_run(dt, first, negative)
                    };
                    let b = match group(g, 3) {
                        Some(second) => second_run(a, second, fraction is Some),
                        None => a,
                    };
                    match group(g, 3) {
                        Some(second) => {
                            lemma_second_run_keeps(a, second, fraction is Some);
                        },
                        None => {},
                    }
                    let c = match fraction {
                        Some(f) => Fields { sec_fraction: Some(f), ..b },
                        None => b,
                    };
                    match group(g, 5) {
                        Some(z) => {
                            lemma_trailing_zone_keeps(c, z);
                        },
                        None => {},
                    }
                },
            }
        },
        None => {},
    }
}

/// The stages for single parts of a date clear no field of date and time.
pub proof fn lemma_lone_parts_keep(i: (bool, Seq<char>, Fields))
    ensures
        keeps_fields(i.2, lone_parts(i).2),
{
    lemma_puts_keep();
    let j = unless(i, HAVE_DIGIT, year_stage(i.1, i.2));
    let k = unless(j, HAVE_ALPHA, mon_stage(j.1, j.2));
    let l = unless(k, HAVE_DIGIT, mday_stage(k.1, k.2));
    lemma_compact_keeps(l.1, l.2);
}

/// The closing stages clear no field.
pub proof fn lemma_closers_keep(s: Seq<char>, dt: Fields)
    ensures
        keeps_fields(dt, closers(s, dt).1),
        keeps_offset(dt, closers(s, dt).1),
{
    lemma_puts_keep();
}

/// No stage clears a field: whatever the text, every field of date and
/// time, the zone text and the request for century completion that are set
/// when the stages start are set when they end. So running the stages
/// again, on what they left of a text and with the record they filled,
/// loses nothing of the record.
///
/// The same holds of the offset, but for one case: see [`drops_offset`].
pub proof fn lemma_cascade_keeps_fields(s: Seq<char>, dt: Fields)
    ensures
        keeps_fields(dt, cascade(s, dt).1),
        !drops_offset(s, dt) ==> keeps_offset(dt, cascade(s, dt).1),
{
    let b = openers(s, dt);
    lemma_openers_keep(s, dt);
    let n = named_dates(b.0, b.1);
    lemma_named_dates_keep(b.0, b.1);
    let i = numeric_dates(n);
    lemma_numeric_dates_keep(n);
    let m = lone_parts(i);
    lemma_lone_parts_keep(i);
    lemma_closers_keep(m.1, m.2);
}

/// Years of two digits are completed around a pivot: with completion asked
/// for, a year from 0 to 68 becomes that year of the 2000s and a year from
/// 69 to 99 that year of the 1900s; any other year, and every year where
/// completion is not asked for, stays as it is. The request is cleared
/// either way.
pub proof fn lemma_two_digit_years(dt: Fields, y: i64)
    requires
        dt.year == Some(y),
    ensures
        dt.comp == Some(true) && 0 <= y <= 68 ==> completed(dt).year == Some((y + 2000) as i64),
        dt.comp == Some(true) && 69 <= y <= 99 ==> completed(dt).year == Some((y + 1900) as i64),
        dt.comp != Some(true) || y < 0 || y > 99 ==> completed(dt).year == Some(y),
        completed(dt).comp is None,
        !dt.bc ==> finished(dt).year == completed(dt).year,
{
}

/// A year before the common era is counted astronomically: the year `y`
/// with the era flag set becomes `1 - y`, and it does so before any century
/// is completed. A year so far in the past that `1 - y` does not fit in 64
/// bits is left out here; such a year is dropped.
pub proof fn lemma_years_before_common_era(dt: Fields, y: i64)
    requires
        dt.bc,
        dt.year == Some(y),
        y >= i64::MIN + 2,
    ensures
        before_common_era(dt).year == Some((1 - y) as i64),
        finished(dt).year == Some(
            if dt.comp == Some(true) {
                full_year((1 - y) as i64)
            } else {
                (1 - y) as i64
            },
        ),
{
}

/// The reference instant fills the fields that are missing in front of the
/// first field that is given, and no others: a field that is given is kept,
/// a field that is missing behind a given one stays missing, and where the
/// year is given nothing changes at all.
pub proof fn lemma_fill_precedence(p: Parts, now: Instant)
    ensures
        p.year is Some ==> filled(p, now) == p,
        p.mon is Some ==> filled(p, now).mon == p.mon,
        p.mday is Some ==> filled(p, now).mday == p.mday,
        p.hour is Some ==> filled(p, now).hour == p.hour,
        p.min is Some ==> filled(p, now).min == p.min,
        p.sec is Some ==> filled(p, now).sec == p.sec,
        p.nanos is Some ==> filled(p, now).nanos == p.nanos,
        gap(p) > 0 ==> filled(p, now).year == Some(now.year),
        gap(p) > 1 ==> filled(p, now).mon == Some(now.month),
        gap(p) > 2 ==> filled(p, now).mday == Some(now.day),
        gap(p) > 3 ==> filled(p, now).hour == Some(now.hour),
        gap(p) > 4 ==> filled(p, now).min == Some(now.minute),
        gap(p) > 5 ==> filled(p, now).sec == Some(now.second),
        gap(p) <= 1 && p.mon is None ==> filled(p, now).mon is None,
        gap(p) <= 2 && p.mday is None ==> filled(p, now).mday is None,
        gap(p) <= 3 && p.hour is None ==> filled(p, now).hour is None,
        gap(p) <= 4 && p.min is None ==> filled(p, now).min is None,
        gap(p) <= 5 && p.sec is None ==> filled(p, now).sec is None,
        gap(p) <= 6 && p.nanos is None ==> filled(p, now).nanos is None,
{
}

/// A time of day without a date takes its date from the reference instant,
/// and nothing else: minutes and seconds that the text does not give stay
/// missing, to become zero.
pub proof fn lemma_time_takes_date(p: Parts, now: Instant)
    requires
        p.year is None,
        p.mon is None,
        p.mday is None,
        p.hour is Some,
    ensures
        filled(p, now) == (Parts {
            year: Some(now.year),
            mon: Some(now.month),
            mday: Some(now.day),
            ..p
        }),
{
}

/// A reference instant that is told at the offset asked for already is
/// taken as it is.
pub proof fn lemma_reference_at_its_offset(now: Instant, off: Option<i32>, local_now: i32)
    requires
        match off {
            Some(o) => now.offset == o,
            None => now.offset == local_now,
        },
    ensures
        reference(now, off, local_now) == now,
{
}

/// Without a zone, and with a reference instant that is told at the
/// machine's own offset, the instant composed is the local time of the
/// fields given, filled at the front from the reference and at the back
/// with the least values.
pub proof fn lemma_local_time_takes_reference(p: Parts, n: Instant, a: Ambient)
    requires
        a.local_now == n.offset,
    ensures
        composed_plain(p, None, Some(n), a) == resolved_locally(
            settled(filled(p, n)),
            a.local_then,
        ),
{
    reveal(composed_plain);
}

/// Fill-from-reference at the whole: given fields that hold a date or a
/// time, no day of the year and no zone, a reference instant at the
/// machine's offset, and a machine that knows its offset `lo` at the time
/// composed, the result is the instant of those fields at `lo`, provided
/// they are in range. Each field in front of the first given one is the
/// reference's, each given field is kept, and each field that is missing
/// behind a given one has its least value.
pub proof fn lemma_compose_fills_from_reference(
    date: Seq<char>,
    p: Parts,
    n: Instant,
    lo: i32,
    a: Ambient,
    b: Ambient,
)
    requires
        !lacks_information(None, p),
        a.local_now == n.offset,
        a.local_then == Some(lo),
        checked_date(
            settled(filled(p, n)).0,
            settled(filled(p, n)).1,
            settled(filled(p, n)).2,
        ) is Ok,
        checked_time(
            settled(filled(p, n)).3,
            settled(filled(p, n)).4,
            settled(filled(p, n)).5,
        ) is Ok,
    ensures
        ({
            let c = settled(filled(p, n));
            composed(date, None, p, None, Some(n), a, b) == Ok::<Instant, Failure>(
                Instant {
                    year: c.0 as i32,
                    month: c.1 as u32,
                    day: c.2 as u32,
                    hour: c.3 as u32,
                    minute: c.4 as u32,
                    second: c.5 as u32,
                    nanos: c.6 as u32,
                    offset: lo,
                },
            )
        }),
        gap(p) > 0 ==> settled(filled(p, n)).0 == n.year,
        gap(p) > 1 ==> settled(filled(p, n)).1 == n.month,
        gap(p) > 2 ==> settled(filled(p, n)).2 == n.day,
        gap(p) > 3 ==> settled(filled(p, n)).3 == n.hour,
        gap(p) > 4 ==> settled(filled(p, n)).4 == n.minute,
        gap(p) > 5 ==> settled(filled(p, n)).5 == n.second,
        p.year matches Some(v) ==> settled(filled(p, n)).0 == v,
        p.mon matches Some(v) ==> settled(filled(p, n)).1 == v,
        p.mday matches Some(v) ==> settled(filled(p, n)).2 == v,
        p.hour matches Some(v) ==> settled(filled(p, n)).3 == v,
        p.min matches Some(v) ==> settled(filled(p, n)).4 == v,
        p.sec matches Some(v) ==> settled(filled(p, n)).5 == v,
        gap(p) <= 1 && p.mon is None ==> settled(filled(p, n)).1 == 1,
        gap(p) <= 2 && p.mday is None ==> settled(filled(p, n)).2 == 1,
        gap(p) <= 3 && p.hour is None ==> settled(filled(p, n)).3 == 0,
        gap(p) <= 4 && p.min is None ==> settled(filled(p, n)).4 == 0,
        gap(p) <= 5 && p.sec is None ==> settled(filled(p, n)).5 == 0,
{
    reveal(composed);
    lemma_local_time_takes_reference(p, n, a);
}

} // verus!
