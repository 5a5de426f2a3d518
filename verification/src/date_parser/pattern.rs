//! Regular-expression matching, done by the `regex` crate, and the verified
//! bookkeeping around one match: the text before it, the captured groups and
//! the text after it.

use vstd::prelude::*;
use vstd::string::*;
use crate::date_parser::text::{join, number_i64, parse_signed};

verus! {

/// One match of a pattern in a text.
pub struct Found {
    /// The text in front of the match.
    pub before: String,
    /// The capture groups, the whole match first; a group that took no part
    /// in the match is `None`.
    pub groups: Vec<Option<String>>,
    /// The text behind the match.
    pub after: String,
}

/// The leftmost match of `pattern` in `text` as the `regex` crate finds it:
/// the text before the match, the capture groups (group 0 being the whole
/// match) and the text after the match. `None` where the pattern does not
/// compile or does not match.
pub uninterp spec fn regex_captures(
    pattern: Seq<char>,
    case_insensitive: bool,
    ignore_whitespace: bool,
    text: Seq<char>,
) -> Option<(Seq<char>, Seq<Option<Seq<char>>>, Seq<char>)>;

/// What a match holds, as plain sequences.
pub open spec fn found_view(r: Option<Found>) -> Option<
    (Seq<char>, Seq<Option<Seq<char>>>, Seq<char>),
> {
    match r {
        None => None,
        Some(f) => Some((f.before@, f.groups.deep_view(), f.after@)),
    }
}

/// Calls `regex::RegexBuilder::build` and `regex::Regex::captures`.
///
/// The contract only names the result: it is whatever the `regex` crate
/// returns for this pattern, these two flags and this text, cut into the part
/// before the match, the groups, and the part after the match. Nothing is
/// claimed about which text matches.
#[verifier::external_body]
pub(crate) fn first_match(
    pattern: &str,
    case_insensitive: bool,
    ignore_whitespace: bool,
    text: &str,
) -> (r: Option<Found>)
    ensures
        found_view(r) == regex_captures(pattern@, case_insensitive, ignore_whitespace, text@),
{
    let re = regex::RegexBuilder::new(pattern)
        .case_insensitive(case_insensitive)
        .ignore_whitespace(ignore_whitespace)
        .build()
        .ok()?;
    let caps = re.captures(text)?;
    let whole = caps.get(0)?;
    Some(Found {
        before: text[..whole.start()].to_owned(),
        groups: caps.iter().map(|g| g.map(|m| m.as_str().to_owned())).collect(),
        after: text[whole.end()..].to_owned(),
    })
}

/// Group `i` of a match; `None` where the match has no such group or the
/// group took no part in it.
pub open spec fn group(groups: Seq<Option<Seq<char>>>, i: int) -> Option<Seq<char>> {
    if 0 <= i < groups.len() {
        groups[i]
    } else {
        None
    }
}

/// Group `i` of a match.
pub fn get_group(groups: &Vec<Option<String>>, i: usize) -> (r: Option<&str>)
    ensures
        r.deep_view() == group(groups.deep_view(), i as int),
{
    if i < groups.len() {
        match &groups[i] {
            Some(s) => Some(s.as_str()),
            None => None,
        }
    } else {
        None
    }
}

/// The text that is left when a match is consumed: the match gives way to a
/// single space.
pub open spec fn blanked(m: (Seq<char>, Seq<Option<Seq<char>>>, Seq<char>)) -> Seq<char> {
    m.0 + seq![' '] + m.2
}

/// What consuming the first match of a pattern leaves of `text`.
pub open spec fn text_after(
    pattern: Seq<char>,
    case_insensitive: bool,
    ignore_whitespace: bool,
    text: Seq<char>,
) -> Seq<char> {
    match regex_captures(pattern, case_insensitive, ignore_whitespace, text) {
        Some(m) => blanked(m),
        None => text,
    }
}

/// The groups of the first match of a pattern in `text`.
pub open spec fn groups_of(
    pattern: Seq<char>,
    case_insensitive: bool,
    ignore_whitespace: bool,
    text: Seq<char>,
) -> Option<Seq<Option<Seq<char>>>> {
    match regex_captures(pattern, case_insensitive, ignore_whitespace, text) {
        Some(m) => Some(m.1),
        None => None,
    }
}

/// Consumes the match `found` from a text: returns the text with the match
/// replaced by one space.
pub fn blank_out(found: &Found) -> (r: String)
    ensures
        r@ == blanked((found.before@, found.groups.deep_view(), found.after@)),
{
    proof {
        reveal_strlit(" ");
    }
    let mut out = join(found.before.as_str(), " ");
    out.append(found.after.as_str());
    assert(" "@ =~= seq![' ']);
    out
}

/// Looks for the first match of `pattern` in `string`. On a match the
/// matched part of `string` is replaced by one space and the groups are
/// returned; otherwise `string` stays as it is.
pub fn take_first(
    pattern: &str,
    case_insensitive: bool,
    ignore_whitespace: bool,
    string: &mut String,
) -> (r: Option<Vec<Option<String>>>)
    ensures
        r.deep_view() == groups_of(pattern@, case_insensitive, ignore_whitespace, old(string)@),
        final(string)@ == text_after(
            pattern@,
            case_insensitive,
            ignore_whitespace,
            old(string)@,
        ),
{
    match first_match(pattern, case_insensitive, ignore_whitespace, string.as_str()) {
        Some(found) => {
            *string = blank_out(&found);
            Some(found.groups)
        },
        None => None,
    }
}

/// Whether `pattern` matches anywhere in `text`.
pub fn is_match(pattern: &str, case_insensitive: bool, ignore_whitespace: bool, text: &str) -> (r:
    bool)
    ensures
        r == regex_captures(pattern@, case_insensitive, ignore_whitespace, text@).is_some(),
{
    first_match(pattern, case_insensitive, ignore_whitespace, text).is_some()
}

/// The signed number that group `i` of a match writes; `None` where the
/// group is not there or writes no number that fits in 64 bits.
pub open spec fn group_number(groups: Seq<Option<Seq<char>>>, i: int) -> Option<i64> {
    match group(groups, i) {
        Some(s) => number_i64(s),
        None => None,
    }
}

/// Reads group `i` of a match as a signed number.
pub fn read_group(groups: &Vec<Option<String>>, i: usize) -> (r: Option<i64>)
    ensures
        r == group_number(groups.deep_view(), i as int),
{
    match get_group(groups, i) {
        Some(s) => parse_signed(s),
        None => None,
    }
}

} // verus!
