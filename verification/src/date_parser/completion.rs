//! What asking for century completion changes: the years of the record, by
//! the pivot, and nothing else.

use vstd::prelude::*;
use crate::date_parser::compact::{
    compact_stage, date_run, second_run, time_run, trailing_zone, COMPACT_PATTERN,
};
use crate::date_parser::names::{
    era_is_bc, has_classes, HAVE_ALPHA, HAVE_DASH, HAVE_DIGIT, HAVE_DOT, HAVE_SLASH,
};
use crate::date_parser::parse::{
    before_common_era, cascade, closers, completed, eu_stage, iso_stage, jis_stage, lone_parts,
    mday_stage, mon_stage, month_token, named_dates, numeric_dates, openers, or_else, parsed,
    sla_stage, unless, us_stage, vms11_stage, vms_stage, year_stage, ymd_stage, DOT, EU, ISO,
    SLA, US, VMS11, VMS12,
};
use crate::date_parser::pattern::{group, regex_captures};
use crate::date_parser::record::{no_fields, put, Fields, Slot};
use crate::date_parser::text::normalized;
use crate::date_parser::triple::triple_fields;

verus! {

/// The record without its request for century completion.
pub open spec fn blind(dt: Fields) -> Fields {
    Fields { comp: None, ..dt }
}

/// Whether two records are the same but for the request for century
/// completion, which the first may have refused where the second asks for
/// it.
pub open spec fn alike(a: Fields, b: Fields) -> bool {
    blind(a) == blind(b) && (a.comp == b.comp || (a.comp == Some(false) && b.comp == Some(true)))
}

/// Whether two results of a stage are the same but for the request for
/// century completion.
pub open spec fn alike_results(
    x: (bool, Seq<char>, Fields),
    y: (bool, Seq<char>, Fields),
) -> bool {
    x.0 == y.0 && x.1 == y.1 && alike(x.2, y.2)
}

/// Whether `b` is the year `a` after century completion, or `a` itself.
pub open spec fn completed_or_same(a: Option<i64>, b: Option<i64>) -> bool {
    ||| b == a
    ||| (a matches Some(v) && 0 <= v <= 68 && b == Some((v + 2000) as i64))
    ||| (a matches Some(v) && 69 <= v <= 99 && b == Some((v + 1900) as i64))
}

/// Writing a number into a field of two records that are alike leaves them
/// alike.
pub proof fn lemma_puts_alike()
    ensures
        forall|a: Fields, b: Fields, slot: Slot, v: Option<i64>|
            alike(a, b) ==> alike(#[trigger] put(a, slot, v), #[trigger] put(b, slot, v)),
{
    reveal(put);
}

/// Reading three tokens into two records that are alike leaves them alike.
pub proof fn lemma_triple_alike(
    a: Fields,
    b: Fields,
    year: Option<Seq<char>>,
    month: Option<Seq<char>>,
    day: Option<Seq<char>>,
    is_bc: bool,
)
    requires
        alike(a, b),
    ensures
        alike(triple_fields(a, year, month, day, is_bc), triple_fields(b, year, month, day, is_bc)),
{
}

/// The opening stages leave two records that are alike alike, and the same
/// text.
pub proof fn lemma_openers_alike(s: Seq<char>, a: Fields, b: Fields)
    requires
        alike(a, b),
    ensures
        openers(s, a).0 == openers(s, b).0,
        alike(openers(s, a).1, openers(s, b).1),
{
    lemma_puts_alike();
}

/// The stage for dates in European order treats records that are alike
/// alike.
pub proof fn lemma_eu_alike(s: Seq<char>, a: Fields, b: Fields)
    requires
        alike(a, b),
    ensures
        alike_results(eu_stage(s, a), eu_stage(s, b)),
{
    match regex_captures(EU@, true, true, s) {
        Some(m) => {
            lemma_triple_alike(
                a,
                b,
                group(m.1, 4),
                month_token(group(m.1, 2)),
                group(m.1, 1),
                era_is_bc(group(m.1, 3)),
            );
        },
        None => {},
    }
}

/// The stage for dates in American order treats records that are alike
/// alike.
pub proof fn lemma_us_alike(s: Seq<char>, a: Fields, b: Fields)
    requires
        alike(a, b),
    ensures
        alike_results(us_stage(s, a), us_stage(s, b)),
{
    match regex_captures(US@, true, true, s) {
        Some(m) => {
            lemma_triple_alike(
                a,
                b,
                group(m.1, 4),
                month_token(group(m.1, 1)),
                group(m.1, 2),
                era_is_bc(group(m.1, 3)),
            );
        },
        None => {},
    }
}

/// A stage for three numbers with one separator treats records that are
/// alike alike.
pub proof fn lemma_ymd_alike(
    pattern: Seq<char>,
    case_insensitive: bool,
    ignore_whitespace: bool,
    s: Seq<char>,
    a: Fields,
    b: Fields,
)
    requires
        alike(a, b),
    ensures
        alike_results(
            ymd_stage(pattern, case_insensitive, ignore_whitespace, s, a),
            ymd_stage(pattern, case_insensitive, ignore_whitespace, s, b),
        ),
{
    match regex_captures(pattern, case_insensitive, ignore_whitespace, s) {
        Some(m) => {
            lemma_triple_alike(a, b, group(m.1, 1), group(m.1, 2), group(m.1, 3), false);
        },
        None => {},
    }
}

/// The stage for dates of a Japanese era treats records that are alike
/// alike.
pub proof fn lemma_jis_alike(s: Seq<char>, a: Fields, b: Fields)
    requires
        alike(a, b),
    ensures
        alike_results(jis_stage(s, a), jis_stage(s, b)),
{
    lemma_puts_alike();
}

/// The stage for dates with a month name between dashes treats records
/// that are alike alike.
pub proof fn lemma_vms_alike(s: Seq<char>, a: Fields, b: Fields)
    requires
        alike(a, b),
    ensures
        alike_results(vms_stage(s, a), vms_stage(s, b)),
{
    match regex_captures(VMS11@, true, true, s) {
        Some(m) => {
            lemma_triple_alike(
                a,
                b,
                group(m.1, 3),
                month_token(group(m.1, 2)),
                group(m.1, 1),
                false,
            );
        },
        None => {},
    }
    let first = vms11_stage(s, a);
    let other = vms11_stage(s, b);
    match regex_captures(VMS12@, true, true, first.1) {
        Some(m) => {
            lemma_triple_alike(
                first.2,
                other.2,
                group(m.1, 3),
                month_token(group(m.1, 1)),
                group(m.1, 2),
                false,
            );
        },
        None => {},
    }
}

/// The stages for dates with a month name or with dashes treat records
/// that are alike alike.
pub proof fn lemma_named_dates_alike(s: Seq<char>, a: Fields, b: Fields)
    requires
        alike(a, b),
    ensures
        alike_results(named_dates(s, a), named_dates(s, b)),
{
    lemma_eu_alike(s, a, b);
    let first = eu_stage(s, a);
    let other = eu_stage(s, b);
    lemma_us_alike(first.1, first.2, other.2);
    let c = if has_classes(s, HAVE_ALPHA | HAVE_DIGIT) {
        or_else(first, us_stage(first.1, first.2))
    } else {
        (false, s, a)
    };
    let c2 = if has_classes(s, HAVE_ALPHA | HAVE_DIGIT) {
        or_else(other, us_stage(other.1, other.2))
    } else {
        (false, s, b)
    };
    lemma_ymd_alike(ISO@, false, false, c.1, c.2, c2.2);
    let d = unless(c, HAVE_DIGIT | HAVE_DASH, iso_stage(c.1, c.2));
    let d2 = unless(c2, HAVE_DIGIT | HAVE_DASH, iso_stage(c2.1, c2.2));
    lemma_jis_alike(d.1, d.2, d2.2);
    let e = unless(d, HAVE_DIGIT | HAVE_DOT, jis_stage(d.1, d.2));
    let e2 = unless(d2, HAVE_DIGIT | HAVE_DOT, jis_stage(d2.1, d2.2));
    lemma_vms_alike(e.1, e.2, e2.2);
}

/// The stages for dates in numbers treat records that are alike alike.
pub proof fn lemma_numeric_dates_alike(f: (bool, Seq<char>, Fields), g: (bool, Seq<char>, Fields))
    requires
        alike_results(f, g),
    ensures
        alike_results(numeric_dates(f), numeric_dates(g)),
{
    lemma_puts_alike();
    lemma_ymd_alike(SLA@, true, true, f.1, f.2, g.2);
    let x = unless(f, HAVE_DIGIT | HAVE_SLASH, sla_stage(f.1, f.2));
    let y = unless(g, HAVE_DIGIT | HAVE_SLASH, sla_stage(g.1, g.2));
    lemma_ymd_alike(DOT@, true, true, x.1, x.2, y.2);
}

/// Reading a run of digits as a date treats records that are alike alike.
pub proof fn lemma_date_run_alike(a: Fields, b: Fields, s: Seq<char>, negative: bool)
    requires
        alike(a, b),
    ensures
        alike(date_run(a, s, negative), date_run(b, s, negative)),
{
    lemma_puts_alike();
}

/// Reading a run of digits as a time treats records that are alike alike.
pub proof fn lemma_time_run_alike(a: Fields, b: Fields, s: Seq<char>, negative: bool)
    requires
        alike(a, b),
    ensures
        alike(time_run(a, s, negative), time_run(b, s, negative)),
{
    lemma_puts_alike();
}

/// Reading a second run of digits treats records that are alike alike.
pub proof fn lemma_second_run_alike(a: Fields, b: Fields, s: Seq<char>, with_fraction: bool)
    requires
        alike(a, b),
    ensures
        alike(second_run(a, s, with_fraction), second_run(b, s, with_fraction)),
{
    lemma_puts_alike();
}

/// Reading a zone behind a run of digits treats records that are alike
/// alike.
pub proof fn lemma_trailing_zone_alike(a: Fields, b: Fields, z: Seq<char>)
    requires
        alike(a, b),
    ensures
        alike(trailing_zone(a, z), trailing_zone(b, z)),
{
}

/// The stage for digits without separators treats records that are alike
/// alike.
pub proof fn lemma_compact_alike(s: Seq<char>, a: Fields, b: Fields)
    requires
        alike(a, b),
    ensures
        alike_results(compact_stage(s, a), compact_stage(s, b)),
{
    match regex_captures(COMPACT_PATTERN@, true, true, s) {
        Some(m) => {
            let g = m.1;
            match group(g, 2) {
                None => {},
                Some(first) => {
                    let negative = group(g, 1) == Some(seq!['-']);
                    let fraction = group(g, 4);
                    lemma_date_run_alike(a, b, first, negative);
                    lemma_time_run_alike(a, b, first, negative);
                    let x = if group(g, 3) is None && fraction is Some {
                        time_run(a, first, negative)
                    } else {
                        date_run(a, first, negative)
                    };
                    let y = if group(g, 3) is None && fraction is Some {
                        time_run(b, first, negative)
                    } else {
                        date_run(b, first, negative)
                    };
                    match group(g, 3) {
                        Some(second) => {
                            lemma_second_run_alike(x, y, second, fraction is Some);
                        },
                        None => {},
                    }
                    let x2 = match group(g, 3) {
                        Some(second) => second_run(x, second, fraction is Some),
                        None => x,
                    };
                    let y2 = match group(g, 3) {
                        Some(second) => second_run(y, second, fraction is Some),
                        None => y,
                    };
                    let x3 = match fraction {
                        Some(f) => Fields { sec_fraction: Some(f), ..x2 },
                        None => x2,
                    };
                    let y3 = match fraction {
                        Some(f) => Fields { sec_fraction: Some(f), ..y2 },
                        None => y2,
                    };
                    assert(alike(x3, y3));
                    match group(g, 5) {
                        Some(z) => {
                            lemma_trailing_zone_alike(x3, y3, z);
                        },
                        None => {},
                    }
                },
            }
        },
        None => {},
    }
}

/// The stages for single parts of a date treat records that are alike
/// alike.
pub proof fn lemma_lone_parts_alike(f: (bool, Seq<char>, Fields), g: (bool, Seq<char>, Fields))
    requires
        alike_results(f, g),
    ensures
        alike_results(lone_parts(f), lone_parts(g)),
{
    lemma_puts_alike();
    let j = unless(f, HAVE_DIGIT, year_stage(f.1, f.2));
    let j2 = unless(g, HAVE_DIGIT, year_stage(g.1, g.2));
    let k = unless(j, HAVE_ALPHA, mon_stage(j.1, j.2));
    let k2 = unless(j2, HAVE_ALPHA, mon_stage(j2.1, j2.2));
    let l = unless(k, HAVE_DIGIT, mday_stage(k.1, k.2));
    let l2 = unless(k2, HAVE_DIGIT, mday_stage(k2.1, k2.2));
    assert(alike_results(j, j2));
    assert(alike_results(k, k2));
    assert(alike_results(l, l2));
    lemma_compact_alike(l.1, l.2, l2.2);
}

/// The closing stages leave two records that are alike alike, and the same
/// text.
pub proof fn lemma_closers_alike(s: Seq<char>, a: Fields, b: Fields)
    requires
        alike(a, b),
    ensures
        closers(s, a).0 == closers(s, b).0,
        alike(closers(s, a).1, closers(s, b).1),
{
}

/// The stages leave two records that are alike alike, and the same text.
pub proof fn lemma_cascade_alike(s: Seq<char>, a: Fields, b: Fields)
    requires
        alike(a, b),
    ensures
        cascade(s, a).0 == cascade(s, b).0,
        alike(cascade(s, a).1, cascade(s, b).1),
{
    lemma_openers_alike(s, a, b);
    let x = openers(s, a);
    let y = openers(s, b);
    lemma_named_dates_alike(x.0, x.1, y.1);
    let n = named_dates(x.0, x.1);
    let n2 = named_dates(y.0, y.1);
    lemma_numeric_dates_alike(n, n2);
    lemma_lone_parts_alike(numeric_dates(n), numeric_dates(n2));
    let m = lone_parts(numeric_dates(n));
    let m2 = lone_parts(numeric_dates(n2));
    lemma_closers_alike(m.1, m.2, m2.2);
}

/// Asking for century completion changes the years of the record by the
/// pivot and nothing else: for every text, the record extracted with the
/// request and the one extracted without it agree in every field but the
/// year and the year of the week calendar; each of these two is either the
/// same in both or, where it is from 0 to 99 without the request, completed
/// to the 2000s (0 to 68) or the 1900s (69 to 99) with it. What is left of
/// the text is the same.
pub proof fn lemma_completion_changes_only_years(text: Seq<char>)
    ensures
        ({
            let a = parsed(text, false);
            let b = parsed(text, true);
            &&& a.1 == b.1
            &&& (Fields { year: None, cwyear: None, ..a.0 }) == (Fields {
                year: None,
                cwyear: None,
                ..b.0
            })
            &&& completed_or_same(a.0.year, b.0.year)
            &&& completed_or_same(a.0.cwyear, b.0.cwyear)
        }),
{
    reveal(parsed);
    let clean = normalized(text);
    let start = Fields { comp: Some(false), ..no_fields() };
    let other = Fields { comp: Some(true), ..no_fields() };
    assert(alike(start, other));
    lemma_cascade_alike(clean, start, other);
    let x = cascade(clean, start).1;
    let y = cascade(clean, other).1;
    let x1 = before_common_era(x);
    let y1 = before_common_era(y);
    assert(alike(x1, y1));
    let x2 = completed(x1);
    let y2 = completed(y1);
    assert(x2.comp is None && y2.comp is None);
    assert((Fields { year: None, cwyear: None, ..x2 }) == (Fields {
        year: None,
        cwyear: None,
        ..y2
    }));
    assert(completed_or_same(x2.year, y2.year));
    assert(completed_or_same(x2.cwyear, y2.cwyear));
}

} // verus!
