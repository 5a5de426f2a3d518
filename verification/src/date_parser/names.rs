//! Names of week days, months and eras, and the classes of characters by
//! which extraction decides what to look for.

use vstd::prelude::*;
use vstd::string::*;
use crate::date_parser::text::{same_ignoring_case, str_eq_ignore_case};

verus! {

/// The text holds a letter.
pub const HAVE_ALPHA: u64 = 1;

/// The text holds a digit.
pub const HAVE_DIGIT: u64 = 2;

/// The text holds a dash.
pub const HAVE_DASH: u64 = 4;

/// The text holds a dot.
pub const HAVE_DOT: u64 = 8;

/// The text holds a slash.
pub const HAVE_SLASH: u64 = 16;

/// Whether `c` has the Unicode property Alphabetic, as `char::is_alphabetic`
/// tells it.
pub uninterp spec fn alphabetic(c: char) -> bool;

/// Whether `c` is in one of the Unicode number categories, as
/// `char::is_numeric` tells it.
pub uninterp spec fn numeric(c: char) -> bool;

/// `char::is_alphabetic` of std; the contract only names its result.
pub assume_specification[ char::is_alphabetic ](c: char) -> (r: bool)
    ensures
        r == alphabetic(c),
;

/// `char::is_numeric` of std; the contract only names its result.
pub assume_specification[ char::is_numeric ](c: char) -> (r: bool)
    ensures
        r == numeric(c),
;

/// The class of one character: letter, digit, dash, dot, slash, or none of
/// them (0).
pub open spec fn class_of(c: char) -> u64 {
    if alphabetic(c) {
        HAVE_ALPHA
    } else if numeric(c) {
        HAVE_DIGIT
    } else if c == '-' {
        HAVE_DASH
    } else if c == '.' {
        HAVE_DOT
    } else if c == '/' {
        HAVE_SLASH
    } else {
        0
    }
}

/// The classes of all characters of `s`, as a set of bits.
pub open spec fn classes_in(s: Seq<char>) -> u64
    decreases s.len(),
{
    if s.len() == 0 {
        0
    } else {
        classes_in(s.drop_last()) | class_of(s.last())
    }
}

/// Whether `s` is not empty and holds a character of each class in
/// `classes`.
pub open spec fn has_classes(s: Seq<char>, classes: u64) -> bool {
    s.len() > 0 && (classes_in(s) & classes) == classes
}

/// Decides whether `string` holds at least one character, and one of each
/// class whose bit is set in `classes`.
pub fn check_classes(string: &str, classes: u64) -> (r: bool)
    ensures
        r == has_classes(string@, classes),
{
    let n: usize = string.unicode_len();
    let mut class: u64 = 0;
    let mut i: usize = 0;
    while i < n
        invariant
            n == string@.len(),
            i <= n,
            class == classes_in(string@.subrange(0, i as int)),
        decreases n - i,
    {
        let c: char = string.get_char(i);
        let bit: u64 = if c.is_alphabetic() {
            HAVE_ALPHA
        } else if c.is_numeric() {
            HAVE_DIGIT
        } else if c == '-' {
            HAVE_DASH
        } else if c == '.' {
            HAVE_DOT
        } else if c == '/' {
            HAVE_SLASH
        } else {
            0
        };
        assert(string@.subrange(0, i + 1).drop_last() =~= string@.subrange(0, i as int));
        class = class | bit;
        i += 1;
    }
    assert(string@.subrange(0, n as int) =~= string@);
    n > 0 && (class & classes) == classes
}

/// The week days by their first three letters, Sunday first.
pub const DAY_NAMES: [&'static str; 7] = ["sun", "mon", "tue", "wed", "thu", "fri", "sat"];

/// The months by their first three letters, each with its number in two
/// digits.
pub const MONTH_NAMES: [(&'static str, &'static str); 12] = [
    ("jan", "01"),
    ("feb", "02"),
    ("mar", "03"),
    ("apr", "04"),
    ("may", "05"),
    ("jun", "06"),
    ("jul", "07"),
    ("aug", "08"),
    ("sep", "09"),
    ("oct", "10"),
    ("nov", "11"),
    ("dec", "12"),
];

/// The index of the first week day from `from` on whose three letters are
/// `name`, letter case set aside.
pub open spec fn day_index(name: Seq<char>, from: int) -> Option<int>
    decreases 7 - from,
{
    if from < 0 || from >= 7 {
        None
    } else if same_ignoring_case(DAY_NAMES[from]@, name) {
        Some(from)
    } else {
        day_index(name, from + 1)
    }
}

/// The number of the week day `name`, Sunday being 0; 0 for any other text.
pub open spec fn day_number(name: Seq<char>) -> i64 {
    match day_index(name, 0) {
        Some(i) => i as i64,
        None => 0,
    }
}

/// The number of the week day that `date` names by its first three letters,
/// Sunday being 0; 0 where `date` names none.
pub fn day_num(date: &str) -> (r: i64)
    ensures
        r == day_number(date@),
        0 <= r <= 6,
{
    let mut i: usize = 0;
    while i < 7
        invariant
            i <= 7,
            day_index(date@, 0) == day_index(date@, i as int),
        decreases 7 - i,
    {
        if str_eq_ignore_case(DAY_NAMES[i], date) {
            return i as i64;
        }
        i += 1;
    }
    0
}

/// The index of the first month from `from` on whose three letters are
/// `name`, letter case set aside.
pub open spec fn month_index(name: Seq<char>, from: int) -> Option<int>
    decreases 12 - from,
{
    if from < 0 || from >= 12 {
        None
    } else if same_ignoring_case(MONTH_NAMES[from].0@, name) {
        Some(from)
    } else {
        month_index(name, from + 1)
    }
}

/// The two digits of the month `name`; those of January for any other text.
pub open spec fn month_digits(name: Seq<char>) -> Seq<char> {
    match month_index(name, 0) {
        Some(i) => MONTH_NAMES[i].1@,
        None => MONTH_NAMES[0].1@,
    }
}

/// The number, in two digits, of the month that `date` names by its first
/// three letters; `"01"` where `date` names none.
pub fn months_num(date: &str) -> (r: &'static str)
    ensures
        r@ == month_digits(date@),
{
    let mut i: usize = 0;
    while i < 12
        invariant
            i <= 12,
            month_index(date@, 0) == month_index(date@, i as int),
        decreases 12 - i,
    {
        if str_eq_ignore_case(MONTH_NAMES[i].0, date) {
            return MONTH_NAMES[i].1;
        }
        i += 1;
    }
    MONTH_NAMES[0].1
}

/// The year before the first year of the Japanese era that the letter `c`
/// stands for: Meiji, Taisho, Showa, Heisei or Reiwa; 0 for any other
/// character.
pub open spec fn era_base(c: char) -> u64 {
    if c == 'M' || c == 'm' {
        1867
    } else if c == 'T' || c == 't' {
        1911
    } else if c == 'S' || c == 's' {
        1925
    } else if c == 'H' || c == 'h' {
        1988
    } else if c == 'R' || c == 'r' {
        2018
    } else {
        0
    }
}

/// The number to add to a year of the Japanese era `c` to get the year of
/// the common era; 0 where `c` is no era letter.
pub fn gengo(c: char) -> (r: u64)
    ensures
        r == era_base(c),
{
    if c == 'M' || c == 'm' {
        1867
    } else if c == 'T' || c == 't' {
        1911
    } else if c == 'S' || c == 's' {
        1925
    } else if c == 'H' || c == 'h' {
        1988
    } else if c == 'R' || c == 'r' {
        2018
    } else {
        0
    }
}

/// Whether an era token marks years before the common era: it starts with
/// `b` or `B`.
pub open spec fn era_is_bc(era: Option<Seq<char>>) -> bool {
    match era {
        Some(s) => s.len() > 0 && (s[0] == 'b' || s[0] == 'B'),
        None => false,
    }
}

/// Decides whether an era token marks years before the common era.
pub fn is_bc_era(era: Option<&str>) -> (r: bool)
    ensures
        r == era_is_bc(era.deep_view()),
{
    match era {
        Some(s) => {
            if s.unicode_len() > 0 {
                let c: char = s.get_char(0);
                c == 'b' || c == 'B'
            } else {
                false
            }
        },
        None => false,
    }
}

} // verus!
