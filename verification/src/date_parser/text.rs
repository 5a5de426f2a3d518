//! Verified helpers on strings, seen as sequences of characters: decimal
//! numbers, ASCII case folding and slicing.

use vstd::arithmetic::div_mod::{lemma_div_denominator, lemma_hoist_over_denominator};
use vstd::arithmetic::power::{lemma_pow_positive, pow};
use vstd::prelude::*;
use vstd::string::*;

verus! {

/// Whether `c` is one of the ten ASCII decimal digits.
pub open spec fn is_digit(c: char) -> bool {
    '0' <= c && c <= '9'
}

/// The number that the ASCII digit `c` stands for.
pub open spec fn digit_value(c: char) -> int {
    c as int - 48
}

/// Whether every character of `s` is an ASCII decimal digit.
pub open spec fn all_digits(s: Seq<char>) -> bool {
    forall|i: int| 0 <= i < s.len() ==> is_digit(#[trigger] s[i])
}

/// The number written by the digits of `s` in base ten; 0 for the empty
/// sequence.
pub open spec fn digits_value(s: Seq<char>) -> int
    decreases s.len(),
{
    if s.len() == 0 {
        0
    } else {
        digits_value(s.drop_last()) * 10 + digit_value(s.last())
    }
}

/// The number written by `s`, where `s` is a non-empty run of digits.
pub open spec fn unsigned_value(s: Seq<char>) -> Option<int> {
    if s.len() > 0 && all_digits(s) {
        Some(digits_value(s))
    } else {
        None
    }
}

/// The number written by `s`, where `s` is an optional `+` or `-` followed
/// by a non-empty run of digits.
pub open spec fn signed_value(s: Seq<char>) -> Option<int> {
    if s.len() > 0 && s[0] == '-' {
        match unsigned_value(s.skip(1)) {
            Some(v) => Some(-v),
            None => None,
        }
    } else if s.len() > 0 && s[0] == '+' {
        unsigned_value(s.skip(1))
    } else {
        unsigned_value(s)
    }
}

/// The unsigned number written by `s`, provided that it does not exceed
/// `limit`.
pub open spec fn number_up_to(s: Seq<char>, limit: u64) -> Option<u64> {
    match unsigned_value(s) {
        Some(v) => if v <= limit {
            Some(v as u64)
        } else {
            None
        },
        None => None,
    }
}

/// The signed number written by `s`, provided that it fits in 64 bits.
pub open spec fn number_i64(s: Seq<char>) -> Option<i64> {
    match signed_value(s) {
        Some(v) => if i64::MIN <= v <= i64::MAX {
            Some(v as i64)
        } else {
            None
        },
        None => None,
    }
}

/// A prefix of a run of digits never writes a larger number than the run.
pub proof fn lemma_digits_value_prefix(s: Seq<char>, i: int)
    requires
        0 <= i <= s.len(),
        all_digits(s),
    ensures
        0 <= digits_value(s.subrange(0, i)) <= digits_value(s),
    decreases s.len(),
{
    if i == s.len() {
        assert(s.subrange(0, i) =~= s);
        if s.len() > 0 {
            lemma_digits_value_prefix(s.drop_last(), i - 1);
            assert(s.drop_last().subrange(0, i - 1) =~= s.drop_last());
            assert(is_digit(s.last()));
        }
    } else {
        lemma_digits_value_prefix(s.drop_last(), i);
        assert(s.drop_last().subrange(0, i) =~= s.subrange(0, i));
        assert(is_digit(s.last()));
    }
}

/// Whether `c` is an ASCII decimal digit.
pub fn char_is_digit(c: char) -> (r: bool)
    ensures
        r == is_digit(c),
{
    '0' <= c && c <= '9'
}

/// Reads `s` as an unsigned decimal number of at most `limit`.
///
/// The result is `None` where `s` is empty, holds anything but ASCII digits,
/// or writes a number above `limit`.
pub fn parse_number(s: &str, limit: u64) -> (r: Option<u64>)
    ensures
        r == number_up_to(s@, limit),
        r matches Some(v) ==> v <= limit && v == digits_value(s@),
{
    let n: usize = s.unicode_len();
    if n == 0 {
        return None;
    }
    let mut acc: u64 = 0;
    let mut i: usize = 0;
    while i < n
        invariant
            n == s@.len(),
            i <= n,
            all_digits(s@.subrange(0, i as int)),
            acc == digits_value(s@.subrange(0, i as int)),
            acc <= limit,
        decreases n - i,
    {
        let c: char = s.get_char(i);
        if !char_is_digit(c) {
            return None;
        }
        let d: u64 = (c as u8 - 48) as u64;
        proof {
            let next = s@.subrange(0, i as int + 1);
            assert(next.drop_last() =~= s@.subrange(0, i as int));
            assert(next.last() == c);
            assert(all_digits(next)) by {
                assert forall|j: int| 0 <= j < next.len() implies is_digit(#[trigger] next[j]) by {
                    if j < i {
                        assert(s@.subrange(0, i as int)[j] == next[j]);
                    }
                }
            }
            assert(digits_value(next) == acc * 10 + d);
            if all_digits(s@) {
                lemma_digits_value_prefix(s@, i as int + 1);
            }
        }
        let wide: u128 = acc as u128 * 10 + d as u128;
        if wide > limit as u128 {
            return None;
        }
        acc = wide as u64;
        i += 1;
    }
    assert(s@.subrange(0, n as int) =~= s@);
    Some(acc)
}

/// Reads `s` as a signed decimal number: an optional `+` or `-`, then one or
/// more ASCII digits.
///
/// The result is `None` where `s` has another shape or the number does not
/// fit in 64 bits.
pub fn parse_signed(s: &str) -> (r: Option<i64>)
    ensures
        r == number_i64(s@),
{
    let n: usize = s.unicode_len();
    if n > 0 && s.get_char(0) == '-' {
        let rest = s.substring_char(1, n);
        assert(rest@ =~= s@.skip(1));
        match parse_number(rest, 9223372036854775808u64) {
            Some(v) => {
                if v == 9223372036854775808u64 {
                    Some(i64::MIN)
                } else {
                    Some(-(v as i64))
                }
            },
            None => None,
        }
    } else if n > 0 && s.get_char(0) == '+' {
        let rest = s.substring_char(1, n);
        assert(rest@ =~= s@.skip(1));
        match parse_number(rest, 9223372036854775807u64) {
            Some(v) => Some(v as i64),
            None => None,
        }
    } else {
        match parse_number(s, 9223372036854775807u64) {
            Some(v) => Some(v as i64),
            None => None,
        }
    }
}

/// The lower-case form of an ASCII letter; any other character unchanged.
pub open spec fn lower_char(c: char) -> char {
    if 'A' <= c && c <= 'Z' {
        ((c as u8) + 32) as char
    } else {
        c
    }
}

/// `s` with every ASCII capital letter replaced by its lower-case form.
pub open spec fn lower(s: Seq<char>) -> Seq<char> {
    Seq::new(s.len(), |i: int| lower_char(s[i]))
}

/// Whether `a` and `b` are equal up to the case of ASCII letters.
pub open spec fn same_ignoring_case(a: Seq<char>, b: Seq<char>) -> bool {
    lower(a) == lower(b)
}

/// Executable form of [`lower_char`].
pub fn to_lower_char(c: char) -> (r: char)
    ensures
        r == lower_char(c),
{
    if 'A' <= c && c <= 'Z' {
        ((c as u8) + 32) as char
    } else {
        c
    }
}

/// Decides whether `a` and `b` hold the same characters.
pub fn str_eq(a: &str, b: &str) -> (r: bool)
    ensures
        r == (a@ == b@),
{
    let n: usize = a.unicode_len();
    if n != b.unicode_len() {
        return false;
    }
    let mut i: usize = 0;
    while i < n
        invariant
            n == a@.len(),
            n == b@.len(),
            i <= n,
            forall|j: int| 0 <= j < i ==> a@[j] == b@[j],
        decreases n - i,
    {
        if a.get_char(i) != b.get_char(i) {
            return false;
        }
        i += 1;
    }
    assert(a@ =~= b@);
    true
}

/// Decides whether `a` and `b` are equal up to the case of ASCII letters.
pub fn str_eq_ignore_case(a: &str, b: &str) -> (r: bool)
    ensures
        r == same_ignoring_case(a@, b@),
{
    let n: usize = a.unicode_len();
    if n != b.unicode_len() {
        assert(lower(a@).len() != lower(b@).len());
        return false;
    }
    let mut i: usize = 0;
    while i < n
        invariant
            n == a@.len(),
            n == b@.len(),
            i <= n,
            forall|j: int| 0 <= j < i ==> lower_char(a@[j]) == lower_char(b@[j]),
        decreases n - i,
    {
        if to_lower_char(a.get_char(i)) != to_lower_char(b.get_char(i)) {
            assert(lower(a@)[i as int] != lower(b@)[i as int]);
            return false;
        }
        i += 1;
    }
    assert(lower(a@) =~= lower(b@));
    true
}

/// Whether the first character of `s` is `c`.
pub open spec fn begins_with(s: Seq<char>, c: char) -> bool {
    s.len() > 0 && s[0] == c
}

/// Decides whether the first character of `s` is `c`.
pub fn starts_with_char(s: &str, c: char) -> (r: bool)
    ensures
        r == begins_with(s@, c),
{
    s.unicode_len() > 0 && s.get_char(0) == c
}

/// The characters of `a` followed by those of `b`, as a new string.
pub fn join(a: &str, b: &str) -> (r: String)
    ensures
        r@ == a@ + b@,
{
    let mut out = String::from_str(a);
    out.append(b);
    out
}

/// The number of characters of `s`.
pub fn char_len(s: &str) -> (n: usize)
    ensures
        n == s@.len(),
{
    s.unicode_len()
}

/// Whether `c` is a character that dates are written with: an ASCII letter
/// or digit, or one of `-+',./:@[]`.
pub open spec fn is_date_char(c: char) -> bool {
    is_digit(c) || ('a' <= c && c <= 'z') || ('A' <= c && c <= 'Z') || c == '-' || c == '+' || c
        == '\'' || c == ',' || c == '.' || c == '/' || c == ':' || c == '@' || c == '[' || c
        == ']'
}

/// Decides whether `c` is a character that dates are written with.
pub fn char_is_date_char(c: char) -> (r: bool)
    ensures
        r == is_date_char(c),
{
    char_is_digit(c) || ('a' <= c && c <= 'z') || ('A' <= c && c <= 'Z') || c == '-' || c == '+'
        || c == '\'' || c == ',' || c == '.' || c == '/' || c == ':' || c == '@' || c == '['
        || c == ']'
}

/// A class of characters that a scan runs over.
#[derive(Clone, Copy, Debug, PartialEq, Eq)]
pub enum CharClass {
    /// The ASCII decimal digits.
    Digit,
    /// Every character but the ASCII decimal digits.
    NonDigit,
    /// Every character but the ASCII decimal digits, `+` and `-`.
    Unsigned,
    /// The one character given.
    Is(char),
    /// Every character but the one given.
    Not(char),
}

/// Whether `c` belongs to the class `k`.
pub open spec fn in_class(k: CharClass, c: char) -> bool {
    match k {
        CharClass::Digit => is_digit(c),
        CharClass::NonDigit => !is_digit(c),
        CharClass::Unsigned => !is_digit(c) && c != '+' && c != '-',
        CharClass::Is(x) => c == x,
        CharClass::Not(x) => c != x,
    }
}

/// The length of the longest prefix of `s` whose characters all belong to
/// the class `k`.
pub open spec fn run_len(k: CharClass, s: Seq<char>) -> int
    decreases s.len(),
{
    if s.len() > 0 && in_class(k, s[0]) {
        1 + run_len(k, s.skip(1))
    } else {
        0
    }
}

/// A run lies within its text, holds only characters of its class, and ends
/// at the end of the text or in front of a character of another class.
pub proof fn lemma_run_len(k: CharClass, s: Seq<char>)
    ensures
        0 <= run_len(k, s) <= s.len(),
        forall|j: int| 0 <= j < run_len(k, s) ==> in_class(k, #[trigger] s[j]),
        run_len(k, s) < s.len() ==> !in_class(k, s[run_len(k, s)]),
    decreases s.len(),
{
    if s.len() > 0 && in_class(k, s[0]) {
        let t = s.skip(1);
        lemma_run_len(k, t);
        assert forall|j: int| 0 <= j < run_len(k, s) implies in_class(k, #[trigger] s[j]) by {
            if j > 0 {
                assert(s[j] == t[j - 1]);
            }
        }
        if run_len(k, s) < s.len() {
            assert(s[run_len(k, s)] == t[run_len(k, t)]);
        }
    }
}

/// Decides whether `c` belongs to the class `k`.
pub fn char_in_class(k: CharClass, c: char) -> (r: bool)
    ensures
        r == in_class(k, c),
{
    match k {
        CharClass::Digit => char_is_digit(c),
        CharClass::NonDigit => !char_is_digit(c),
        CharClass::Unsigned => !char_is_digit(c) && c != '+' && c != '-',
        CharClass::Is(x) => c == x,
        CharClass::Not(x) => c != x,
    }
}

/// Runs over the characters of class `k` that stand in `s` from position
/// `from` on, and returns the position behind the last of them.
pub fn scan(k: CharClass, s: &str, from: usize) -> (end: usize)
    requires
        from <= s@.len(),
    ensures
        end == from + run_len(k, s@.skip(from as int)),
        from <= end <= s@.len(),
{
    let n: usize = s.unicode_len();
    let mut i: usize = from;
    proof {
        lemma_run_len(k, s@.skip(from as int));
    }
    while i < n && char_in_class(k, s.get_char(i))
        invariant
            n == s@.len(),
            from <= i <= n,
            run_len(k, s@.skip(from as int)) == (i - from) + run_len(k, s@.skip(i as int)),
        decreases n - i,
    {
        assert(s@.skip(i as int).skip(1) =~= s@.skip(i as int + 1));
        i += 1;
    }
    i
}

/// A text cut at its first character that is no digit: the digits in front
/// of it, that character, and what follows it. Where the text holds only
/// digits, it is the first part and the other two are empty.
pub open spec fn number_part(s: Seq<char>) -> (Seq<char>, Seq<char>, Seq<char>) {
    let n = run_len(CharClass::Digit, s);
    if n >= s.len() {
        (s, Seq::empty(), Seq::empty())
    } else {
        (s.subrange(0, n), s.subrange(n, n + 1), s.subrange(n + 1, s.len() as int))
    }
}

/// Cuts `string` at its first character that is no ASCII digit.
pub fn slice_number_part(string: &str) -> (r: (&str, &str, &str))
    ensures
        (r.0@, r.1@, r.2@) == number_part(string@),
{
    let n: usize = string.unicode_len();
    let index: usize = scan(CharClass::Digit, string, 0);
    assert(string@.skip(0) =~= string@);
    if index < n {
        (
            string.substring_char(0, index),
            string.substring_char(index, index + 1),
            string.substring_char(index + 1, n),
        )
    } else {
        let rest = string.substring_char(n, n);
        assert(rest@ =~= Seq::<char>::empty());
        (string, rest, rest)
    }
}

/// The first number in a text, with its sign: the sign (`+`, `-` or
/// nothing) where the first digit or sign of the text is a sign, the digits
/// that follow, and what stands behind the character after those digits.
/// `None` where the text holds neither a digit nor a sign.
pub open spec fn signed_number_part(s: Seq<char>) -> Option<(Seq<char>, Seq<char>, Seq<char>)> {
    let i = run_len(CharClass::Unsigned, s);
    if i >= s.len() {
        None
    } else {
        let signed = s[i] == '+' || s[i] == '-';
        let rest = if signed {
            s.skip(i + 1)
        } else {
            s.skip(i)
        };
        let sign = if signed {
            s.subrange(i, i + 1)
        } else {
            Seq::empty()
        };
        let n = run_len(CharClass::Digit, rest);
        if n >= rest.len() {
            Some((sign, rest, Seq::empty()))
        } else {
            Some((sign, rest.subrange(0, n), rest.skip(n + 1)))
        }
    }
}

/// Finds the first number in `string`, with its sign.
pub fn slice_signed_number_part(string: &str) -> (r: Option<(&str, &str, &str)>)
    ensures
        match r {
            Some(p) => signed_number_part(string@) == Some((p.0@, p.1@, p.2@)),
            None => signed_number_part(string@) is None,
        },
{
    let len: usize = string.unicode_len();
    let index: usize = scan(CharClass::Unsigned, string, 0);
    assert(string@.skip(0) =~= string@);
    if index >= len {
        return None;
    }
    let first: char = string.get_char(index);
    let signed: bool = first == '+' || first == '-';
    let start: usize = if signed {
        index + 1
    } else {
        index
    };
    let sign: &str = if signed {
        string.substring_char(index, index + 1)
    } else {
        string.substring_char(index, index)
    };
    let end: usize = scan(CharClass::Digit, string, start);
    let ghost rest = string@.skip(start as int);
    let digits: &str = string.substring_char(start, end);
    assert(digits@ =~= rest.subrange(0, end - start));
    assert(sign@ =~= if signed {
        string@.subrange(index as int, index + 1)
    } else {
        Seq::empty()
    });
    if end < len {
        let remaining: &str = string.substring_char(end + 1, len);
        assert(remaining@ =~= rest.skip(end - start + 1));
        Some((sign, digits, remaining))
    } else {
        let remaining: &str = string.substring_char(len, len);
        assert(remaining@ =~= Seq::<char>::empty());
        assert(digits@ =~= rest);
        Some((sign, digits, remaining))
    }
}

/// The first run of digits in a text; `None` where it holds no digit.
pub open spec fn first_digits(s: Seq<char>) -> Option<Seq<char>> {
    let i = run_len(CharClass::NonDigit, s);
    if i >= s.len() {
        None
    } else {
        Some(s.skip(i).subrange(0, run_len(CharClass::Digit, s.skip(i))))
    }
}

/// Finds the first run of ASCII digits in `string`.
pub fn first_digit_run(string: &str) -> (r: Option<&str>)
    ensures
        r.deep_view() == first_digits(string@),
{
    let len: usize = string.unicode_len();
    let start: usize = scan(CharClass::NonDigit, string, 0);
    assert(string@.skip(0) =~= string@);
    if start >= len {
        return None;
    }
    let end: usize = scan(CharClass::Digit, string, start);
    let digits: &str = string.substring_char(start, end);
    assert(digits@ =~= string@.skip(start as int).subrange(0, end - start));
    Some(digits)
}

/// The number of times that `c` stands at the end of `s`.
pub open spec fn trailing_run(s: Seq<char>, c: char) -> int
    decreases s.len(),
{
    if s.len() > 0 && s.last() == c {
        1 + trailing_run(s.drop_last(), c)
    } else {
        0
    }
}

/// `s` without the characters `c` at its start.
pub open spec fn strip_start(s: Seq<char>, c: char) -> Seq<char> {
    s.skip(run_len(CharClass::Is(c), s))
}

/// `s` without the characters `c` at its end.
pub open spec fn strip_end(s: Seq<char>, c: char) -> Seq<char> {
    s.subrange(0, s.len() - trailing_run(s, c))
}

/// `s` without the spaces at its start and at its end.
pub open spec fn trimmed(s: Seq<char>) -> Seq<char> {
    strip_end(strip_start(s, ' '), ' ')
}

/// `s` without the characters `c` at its start.
pub fn trim_start(s: &str, c: char) -> (r: &str)
    ensures
        r@ == strip_start(s@, c),
{
    let n: usize = s.unicode_len();
    let lead: usize = scan(CharClass::Is(c), s, 0);
    assert(s@.skip(0) =~= s@);
    let r = s.substring_char(lead, n);
    assert(r@ =~= s@.skip(lead as int));
    r
}

/// `s` without the characters `c` at its end.
pub fn trim_end(s: &str, c: char) -> (r: &str)
    ensures
        r@ == strip_end(s@, c),
{
    let n: usize = s.unicode_len();
    let mut end: usize = n;
    assert(s@.subrange(0, n as int) =~= s@);
    while end > 0 && s.get_char(end - 1) == c
        invariant
            n == s@.len(),
            end <= n,
            trailing_run(s@, c) == (n - end) + trailing_run(s@.subrange(0, end as int), c),
        decreases end,
    {
        assert(s@.subrange(0, end as int).drop_last() =~= s@.subrange(0, end as int - 1));
        end -= 1;
    }
    s.substring_char(0, end)
}

/// `s` without the spaces at its start and at its end.
pub fn trim(s: &str) -> (r: &str)
    ensures
        r@ == trimmed(s@),
{
    trim_end(trim_start(s, ' '), ' ')
}

/// A text cut at its first `c`: what stands in front of it and what stands
/// behind it. `None` where the text holds no `c`.
pub open spec fn split_at_first(s: Seq<char>, c: char) -> Option<(Seq<char>, Seq<char>)> {
    let i = run_len(CharClass::Not(c), s);
    if i >= s.len() {
        None
    } else {
        Some((s.subrange(0, i), s.skip(i + 1)))
    }
}

/// Cuts `s` at its first `c`.
pub fn split_once(s: &str, c: char) -> (r: Option<(&str, &str)>)
    ensures
        match r {
            Some(p) => split_at_first(s@, c) == Some((p.0@, p.1@)),
            None => split_at_first(s@, c) is None,
        },
{
    let n: usize = s.unicode_len();
    let i: usize = scan(CharClass::Not(c), s, 0);
    assert(s@.skip(0) =~= s@);
    if i >= n {
        None
    } else {
        let tail = s.substring_char(i + 1, n);
        assert(tail@ =~= s@.skip(i + 1));
        Some((s.substring_char(0, i), tail))
    }
}

/// Decides whether `s` is the single character `c`.
pub fn is_char(s: &str, c: char) -> (r: bool)
    ensures
        r == (s@ == seq![c]),
{
    if s.unicode_len() == 1 && s.get_char(0) == c {
        assert(s@ =~= seq![c]);
        true
    } else {
        proof {
            if s@ == seq![c] {
                assert(s@.len() == 1 && s@[0] == c);
            }
        }
        false
    }
}

/// The whole units in the fraction of a unit whose decimal digits are
/// `digits`: `unit` times 0.`digits`, rounded down. The digits are taken
/// from the last to the first, each step dividing by ten what the digits
/// behind it have brought.
pub open spec fn scaled_fraction(unit: int, digits: Seq<char>) -> int
    decreases digits.len(),
{
    if digits.len() == 0 {
        0
    } else {
        (unit * digit_value(digits[0]) + scaled_fraction(unit, digits.skip(1))) / 10
    }
}

/// The number that a run of digits writes is its first digit, at its power
/// of ten, and the number that the digits behind it write.
pub proof fn lemma_digits_value_front(s: Seq<char>)
    requires
        s.len() > 0,
    ensures
        digits_value(s) == digit_value(s[0]) * pow(10, (s.len() - 1) as nat) + digits_value(
            s.skip(1),
        ),
    decreases s.len(),
{
    reveal_with_fuel(pow, 2);
    let last = digit_value(s.last());
    if s.len() == 1 {
        assert(s.drop_last().len() == 0);
        assert(s.skip(1).len() == 0);
        assert(digits_value(s.drop_last()) == 0);
        assert(digits_value(s.skip(1)) == 0);
        assert(digits_value(s) == 0 * 10 + last);
        assert(pow(10, 0) == 1);
        assert(digit_value(s[0]) * 1 == digit_value(s[0]));
    } else {
        let front = s.drop_last();
        lemma_digits_value_front(front);
        assert(front.skip(1) =~= s.skip(1).drop_last());
        assert(front[0] == s[0]);
        assert(s.skip(1).last() == s.last());
        let p = pow(10, (s.len() - 2) as nat);
        let d0 = digit_value(s[0]);
        let inner = digits_value(front.skip(1));
        assert(pow(10, (s.len() - 1) as nat) == 10 * p);
        assert(digits_value(front) == d0 * p + inner);
        assert(digits_value(s) == digits_value(front) * 10 + last);
        assert(digits_value(s.skip(1)) == inner * 10 + last);
        assert((d0 * p + inner) * 10 + last == d0 * (10 * p) + (inner * 10 + last))
            by (nonlinear_arith);
    }
}

/// [`scaled_fraction`] is what its name says: for a run of `n` digits that
/// writes the number `v`, it is `unit` times `v`, divided by ten to the
/// power of `n` and rounded down.
pub proof fn lemma_scaled_fraction(unit: int, digits: Seq<char>)
    requires
        unit >= 0,
        all_digits(digits),
    ensures
        scaled_fraction(unit, digits) == (unit * digits_value(digits)) / pow(10, digits.len()),
        0 <= scaled_fraction(unit, digits),
    decreases digits.len(),
{
    reveal_with_fuel(pow, 2);
    if digits.len() > 0 {
        let rest = digits.skip(1);
        let n = digits.len();
        let p = pow(10, (n - 1) as nat);
        let d0 = digit_value(digits[0]);
        let vr = digits_value(rest);
        assert(all_digits(rest)) by {
            assert forall|i: int| 0 <= i < rest.len() implies is_digit(#[trigger] rest[i]) by {
                assert(rest[i] == digits[i + 1]);
            }
        }
        lemma_scaled_fraction(unit, rest);
        lemma_digits_value_front(digits);
        lemma_digits_value_prefix(rest, rest.len() as int);
        assert(rest.subrange(0, rest.len() as int) =~= rest);
        lemma_pow_positive(10, (n - 1) as nat);
        assert(is_digit(digits[0]));
        let a = unit * d0;
        let x = unit * vr;
        assert(0 <= a && 0 <= x) by (nonlinear_arith)
            requires
                unit >= 0,
                d0 >= 0,
                vr >= 0,
                a == unit * d0,
                x == unit * vr,
        ;
        assert(unit * digits_value(digits) == x + a * p) by (nonlinear_arith)
            requires
                digits_value(digits) == d0 * p + vr,
                a == unit * d0,
                x == unit * vr,
        ;
        assert(0 <= a * p) by (nonlinear_arith)
            requires
                0 <= a,
                0 < p,
        ;
        lemma_hoist_over_denominator(x, a, p as nat);
        lemma_div_denominator(x + a * p, p, 10);
        assert(pow(10, n) == 10 * p);
        assert(p * 10 == 10 * p);
        assert(scaled_fraction(unit, digits) == (a + x / p) / 10);
    }
}

/// Computes [`scaled_fraction`] for a run of digits.
pub fn scale_fraction(unit: u32, digits: &str) -> (r: u32)
    requires
        0 < unit <= 1_000_000,
        all_digits(digits@),
    ensures
        r == scaled_fraction(unit as int, digits@),
        r == (unit * digits_value(digits@)) / pow(10, digits@.len()),
        r < unit,
{
    let n: usize = digits.unicode_len();
    let mut carry: u32 = 0;
    let mut i: usize = n;
    while i > 0
        invariant
            n == digits@.len(),
            i <= n,
            0 < unit <= 1_000_000,
            all_digits(digits@),
            carry == scaled_fraction(unit as int, digits@.skip(i as int)),
            carry < unit,
        decreases i,
    {
        let c: char = digits.get_char(i - 1);
        assert(is_digit(digits@[i - 1]));
        let d: u32 = (c as u8 - 48) as u32;
        assert(digits@.skip(i - 1).skip(1) =~= digits@.skip(i as int));
        assert(unit * d <= 9 * unit && 9 * unit <= 9_000_000) by (nonlinear_arith)
            requires
                0 < unit <= 1_000_000,
                d <= 9,
        ;
        carry = (unit * d + carry) / 10;
        i -= 1;
    }
    assert(digits@.skip(0) =~= digits@);
    proof {
        lemma_scaled_fraction(unit as int, digits@);
    }
    carry
}

/// `s` with every run of characters that no date is written with replaced
/// by one space: such a character is dropped where the next one is of the
/// same kind, and becomes a space where it is the last of its run.
pub open spec fn normalized(s: Seq<char>) -> Seq<char>
    decreases s.len(),
{
    if s.len() == 0 {
        Seq::empty()
    } else if is_date_char(s[0]) {
        seq![s[0]] + normalized(s.skip(1))
    } else if s.len() > 1 && !is_date_char(s[1]) {
        normalized(s.skip(1))
    } else {
        seq![' '] + normalized(s.skip(1))
    }
}

/// A normalized text holds nothing but the characters that dates are
/// written with, and spaces.
pub proof fn lemma_normalized_chars(s: Seq<char>)
    ensures
        forall|i: int|
            0 <= i < normalized(s).len() ==> is_date_char(#[trigger] normalized(s)[i])
                || normalized(s)[i] == ' ',
    decreases s.len(),
{
    if s.len() > 0 {
        let tail = normalized(s.skip(1));
        lemma_normalized_chars(s.skip(1));
        assert forall|i: int| 0 <= i < normalized(s).len() implies is_date_char(
            #[trigger] normalized(s)[i],
        ) || normalized(s)[i] == ' ' by {
            if normalized(s).len() == tail.len() + 1 && i > 0 {
                assert(normalized(s)[i] == tail[i - 1]);
            }
        }
    }
}

/// Replaces every run of characters that no date is written with by one
/// space.
pub fn normalize(s: &str) -> (r: String)
    ensures
        r@ == normalized(s@),
{
    proof {
        reveal_strlit(" ");
    }
    let n: usize = s.unicode_len();
    let mut out: String = String::new();
    let mut i: usize = 0;
    assert(s@.skip(0) =~= s@);
    while i < n
        invariant
            n == s@.len(),
            i <= n,
            " "@ == seq![' '],
            normalized(s@) == out@ + normalized(s@.skip(i as int)),
        decreases n - i,
    {
        let ghost rest = s@.skip(i as int);
        let ghost before = out@;
        assert(rest.skip(1) =~= s@.skip(i + 1));
        if char_is_date_char(s.get_char(i)) {
            out.append(s.substring_char(i, i + 1));
            assert(s@.subrange(i as int, i + 1) =~= seq![rest[0]]);
            assert((before + seq![rest[0]]) + normalized(rest.skip(1)) =~= before + (seq![rest[0]]
                + normalized(rest.skip(1))));
        } else if i + 1 < n && !char_is_date_char(s.get_char(i + 1)) {
            assert(rest[1] == s@[i + 1]);
        } else {
            out.append(" ");
            assert((before + seq![' ']) + normalized(rest.skip(1)) =~= before + (seq![' ']
                + normalized(rest.skip(1))));
        }
        i += 1;
    }
    assert(normalized(s@.skip(n as int)) =~= Seq::<char>::empty());
    assert(out@ + Seq::<char>::empty() =~= out@);
    out
}

} // verus!
