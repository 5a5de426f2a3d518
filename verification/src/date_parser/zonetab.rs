//! The table of time-zone names and abbreviations with their offsets from
//! UTC.

use vstd::prelude::*;
use vstd::string::*;
use crate::date_parser::text::{same_ignoring_case, str_eq_ignore_case, trim, trimmed};

verus! {

/// The number of entries of [`ZONES`].
pub const ZONE_COUNT: usize = 175;

/// Zone names in lower case, each with its offset from UTC in seconds, east
/// positive: the zones of RFC 822 with the military letters, common
/// abbreviations, and the names that end in "Standard Time" or "Daylight
/// Time" without that ending.
pub const ZONES: [(&'static str, i32); 175] = [
    ("utc", 0),
    ("ut", 0),
    ("gmt", 0),
    ("est", -18000),
    ("edt", -14400),
    ("cst", -21600),
    ("cdt", -18000),
    ("mst", -25200),
    ("mdt", -21600),
    ("pst", -28800),
    ("pdt", -25200),
    ("a", 3600),
    ("b", 7200),
    ("c", 10800),
    ("d", 14400),
    ("e", 18000),
    ("f", 21600),
    ("g", 25200),
    ("h", 28800),
    ("i", 32400),
    ("k", 36000),
    ("l", 39600),
    ("m", 43200),
    ("n", -3600),
    ("o", -7200),
    ("p", -10800),
    ("q", -14400),
    ("r", -18000),
    ("s", -21600),
    ("t", -25200),
    ("u", -28800),
    ("v", -32400),
    ("w", -36000),
    ("x", -39600),
    ("y", -43200),
    ("z", 0),
    ("wet", 0),
    ("at", -7200),
    ("brst", -7200),
    ("ndt", -9000),
    ("art", -10800),
    ("adt", -10800),
    ("brt", -10800),
    ("clst", -10800),
    ("nst", -12600),
    ("ast", -14400),
    ("clt", -14400),
    ("akdt", -28800),
    ("ydt", -28800),
    ("akst", -32400),
    ("hadt", -32400),
    ("hdt", -32400),
    ("yst", -32400),
    ("ahst", -36000),
    ("cat", -36000),
    ("hast", -36000),
    ("hst", -36000),
    ("nt", -39600),
    ("idlw", -43200),
    ("bst", 3600),
    ("cet", 3600),
    ("fwt", 3600),
    ("met", 3600),
    ("mewt", 3600),
    ("mez", 3600),
    ("swt", 3600),
    ("wat", 3600),
    ("west", 3600),
    ("cest", 7200),
    ("eet", 7200),
    ("fst", 7200),
    ("mest", 7200),
    ("mesz", 7200),
    ("sast", 7200),
    ("sst", 7200),
    ("bt", 10800),
    ("eat", 10800),
    ("eest", 10800),
    ("msk", 10800),
    ("msd", 14400),
    ("zp4", 14400),
    ("zp5", 18000),
    ("ist", 19800),
    ("zp6", 21600),
    ("wast", 25200),
    ("cct", 28800),
    ("sgt", 28800),
    ("wadt", 28800),
    ("awst", 28800),
    ("jst", 32400),
    ("kst", 32400),
    ("acst", 34200),
    ("east", 36000),
    ("aest", 36000),
    ("gst", 36000),
    ("acdt", 37800),
    ("eadt", 39600),
    ("aedt", 39600),
    ("idle", 43200),
    ("nzst", 43200),
    ("nzt", 43200),
    ("nzdt", 46800),
    ("afghanistan", 16200),
    ("alaskan", -32400),
    ("arab", 10800),
    ("arabian", 14400),
    ("arabic", 10800),
    ("atlantic", -14400),
    ("aus central", 34200),
    ("aus eastern", 36000),
    ("azores", -3600),
    ("canada central", -21600),
    ("cape verde", -3600),
    ("caucasus", 14400),
    ("cen. australia", 34200),
    ("central", -21600),
    ("central america", -21600),
    ("central asia", 21600),
    ("central europe", 3600),
    ("central european", 3600),
    ("central pacific", 39600),
    ("china", 28800),
    ("dateline", -43200),
    ("e. africa", 10800),
    ("e. australia", 36000),
    ("e. europe", 7200),
    ("e. south america", -10800),
    ("eastern", -18000),
    ("egypt", 7200),
    ("ekaterinburg", 18000),
    ("fiji", 43200),
    ("fle", 7200),
    ("greenland", -10800),
    ("greenwich", 0),
    ("gtb", 7200),
    ("hawaiian", -36000),
    ("india", 19800),
    ("iran", 12600),
    ("jerusalem", 7200),
    ("korea", 32400),
    ("mexico", -21600),
    ("mid-atlantic", -7200),
    ("mountain", -25200),
    ("myanmar", 23400),
    ("n. central asia", 21600),
    ("nepal", 20700),
    ("new zealand", 43200),
    ("newfoundland", -12600),
    ("north asia", 25200),
    ("north asia east", 28800),
    ("pacific", -28800),
    ("pacific sa", -14400),
    ("romance", 3600),
    ("russian", 10800),
    ("sa eastern", -10800),
    ("sa pacific", -18000),
    ("sa western", -14400),
    ("samoa", -39600),
    ("se asia", 25200),
    ("malay peninsula", 28800),
    ("south africa", 7200),
    ("sri lanka", 21600),
    ("taipei", 28800),
    ("tasmania", 36000),
    ("tokyo", 32400),
    ("tonga", 46800),
    ("us eastern", -18000),
    ("us mountain", -25200),
    ("vladivostok", 36000),
    ("w. australia", 28800),
    ("w. central africa", 3600),
    ("w. europe", 3600),
    ("west asia", 18000),
    ("west pacific", 36000),
    ("yakutsk", 32400),
];

/// The index of the first entry from `from` on whose name is `name` up to
/// the case of ASCII letters.
pub open spec fn zone_index(name: Seq<char>, from: int) -> Option<int>
    decreases ZONE_COUNT - from,
{
    if from < 0 || from >= ZONE_COUNT {
        None
    } else if same_ignoring_case(ZONES[from].0@, name) {
        Some(from)
    } else {
        zone_index(name, from + 1)
    }
}

/// The offset in seconds that the table gives for `name`, blanks around the
/// name and the case of its letters set aside; `None` for a name that is not
/// in the table.
pub open spec fn named_offset(name: Seq<char>) -> Option<i64> {
    match zone_index(trimmed(name), 0) {
        Some(i) => Some(ZONES[i].1 as i64),
        None => None,
    }
}

/// Looks `zone` up in the table of named zones.
pub fn zone_offset(zone: &str) -> (r: Option<i64>)
    ensures
        r == named_offset(zone@),
{
    let name: &str = trim(zone);
    let mut i: usize = 0;
    while i < ZONE_COUNT
        invariant
            i <= ZONE_COUNT,
            name@ == trimmed(zone@),
            zone_index(name@, 0) == zone_index(name@, i as int),
        decreases ZONE_COUNT - i,
    {
        if str_eq_ignore_case(ZONES[i].0, name) {
            return Some(ZONES[i].1 as i64);
        }
        i += 1;
    }
    None
}

} // verus!
