//! The record of calendar fields that extraction fills in.

use vstd::prelude::*;
use vstd::string::*;

verus! {

/// The calendar fields found in a text. Every field is optional: a field
/// that the text does not give stays unset.
#[derive(Debug, PartialEq)]
pub struct DateTime {
    /// Hour of the day.
    pub hour: Option<u64>,
    /// Minute of the hour.
    pub min: Option<u64>,
    /// Second of the minute.
    pub sec: Option<u64>,
    /// The decimal digits of the fraction of a second, as written after the
    /// decimal point: `"5"` is half a second, `"05"` a twentieth.
    pub sec_fraction: Option<String>,
    /// Year; negative before the common era.
    pub year: Option<i64>,
    /// Month of the year, from 1.
    pub mon: Option<u64>,
    /// Day of the month, from 1.
    pub mday: Option<u64>,
    /// Day of the year, from 1.
    pub yday: Option<i64>,
    /// Day of the week, Sunday being 0.
    pub wday: Option<i64>,
    /// Year of the ISO week-numbering calendar.
    pub cwyear: Option<i64>,
    /// Week of the ISO week-numbering year.
    pub cweek: Option<u64>,
    /// Day of the ISO week, Monday being 1.
    pub cwday: Option<u64>,
    /// Offset from UTC in seconds, east positive.
    pub offset: Option<i64>,
    /// The time zone as the text gives it.
    pub zone: Option<String>,
    /// Whether the text marks the year as before the common era.
    pub bc: bool,
    /// Whether a year below 100 still awaits its century.
    pub comp: Option<bool>,
}

/// The mathematical value of a [`DateTime`]: the same fields, with texts as
/// sequences of characters.
pub struct Fields {
    pub hour: Option<u64>,
    pub min: Option<u64>,
    pub sec: Option<u64>,
    pub sec_fraction: Option<Seq<char>>,
    pub year: Option<i64>,
    pub mon: Option<u64>,
    pub mday: Option<u64>,
    pub yday: Option<i64>,
    pub wday: Option<i64>,
    pub cwyear: Option<i64>,
    pub cweek: Option<u64>,
    pub cwday: Option<u64>,
    pub offset: Option<i64>,
    pub zone: Option<Seq<char>>,
    pub bc: bool,
    pub comp: Option<bool>,
}

impl View for DateTime {
    type V = Fields;

    open spec fn view(&self) -> Fields {
        Fields {
            hour: self.hour,
            min: self.min,
            sec: self.sec,
            sec_fraction: self.sec_fraction.deep_view(),
            year: self.year,
            mon: self.mon,
            mday: self.mday,
            yday: self.yday,
            wday: self.wday,
            cwyear: self.cwyear,
            cweek: self.cweek,
            cwday: self.cwday,
            offset: self.offset,
            zone: self.zone.deep_view(),
            bc: self.bc,
            comp: self.comp,
        }
    }
}

/// The record in which no field is set.
pub open spec fn no_fields() -> Fields {
    Fields {
        hour: None,
        min: None,
        sec: None,
        sec_fraction: None,
        year: None,
        mon: None,
        mday: None,
        yday: None,
        wday: None,
        cwyear: None,
        cweek: None,
        cwday: None,
        offset: None,
        zone: None,
        bc: false,
        comp: None,
    }
}

/// Whether every field of date and time that is set in `a` is set in `b`
/// too, as well as the zone text and the request for century completion.
pub open spec fn keeps_fields(a: Fields, b: Fields) -> bool {
    &&& a.hour is Some ==> b.hour is Some
    &&& a.min is Some ==> b.min is Some
    &&& a.sec is Some ==> b.sec is Some
    &&& a.sec_fraction is Some ==> b.sec_fraction is Some
    &&& a.year is Some ==> b.year is Some
    &&& a.mon is Some ==> b.mon is Some
    &&& a.mday is Some ==> b.mday is Some
    &&& a.yday is Some ==> b.yday is Some
    &&& a.wday is Some ==> b.wday is Some
    &&& a.cwyear is Some ==> b.cwyear is Some
    &&& a.cweek is Some ==> b.cweek is Some
    &&& a.cwday is Some ==> b.cwday is Some
    &&& a.zone is Some ==> b.zone is Some
    &&& a.comp is Some ==> b.comp is Some
}

/// Whether an offset that is set in `a` is set in `b` too.
pub open spec fn keeps_offset(a: Fields, b: Fields) -> bool {
    a.offset is Some ==> b.offset is Some
}

impl Default for DateTime {
    /// The record in which no field is set.
    fn default() -> (r: DateTime)
        ensures
            r@ == no_fields(),
    {
        DateTime {
            hour: None,
            min: None,
            sec: None,
            sec_fraction: None,
            year: None,
            mon: None,
            mday: None,
            yday: None,
            wday: None,
            cwyear: None,
            cweek: None,
            cwday: None,
            offset: None,
            zone: None,
            bc: false,
            comp: None,
        }
    }
}

/// The numeric fields of the record.
#[derive(Clone, Copy, Debug, PartialEq, Eq)]
pub enum Slot {
    Hour,
    Min,
    Sec,
    Year,
    Mon,
    Mday,
    Yday,
    Wday,
    Cwyear,
    Cweek,
    Cwday,
}

/// The record with the number `v` written into the field `slot`. Nothing
/// changes where `v` is `None`, or negative while the field holds unsigned
/// numbers.
pub open spec fn put(dt: Fields, slot: Slot, v: Option<i64>) -> Fields {
    match v {
        None => dt,
        Some(n) => match slot {
            Slot::Year => Fields { year: Some(n), ..dt },
            Slot::Yday => Fields { yday: Some(n), ..dt },
            Slot::Wday => Fields { wday: Some(n), ..dt },
            Slot::Cwyear => Fields { cwyear: Some(n), ..dt },
            _ => if n < 0 {
                dt
            } else {
                match slot {
                    Slot::Hour => Fields { hour: Some(n as u64), ..dt },
                    Slot::Min => Fields { min: Some(n as u64), ..dt },
                    Slot::Sec => Fields { sec: Some(n as u64), ..dt },
                    Slot::Mon => Fields { mon: Some(n as u64), ..dt },
                    Slot::Mday => Fields { mday: Some(n as u64), ..dt },
                    Slot::Cweek => Fields { cweek: Some(n as u64), ..dt },
                    _ => Fields { cwday: Some(n as u64), ..dt },
                }
            },
        },
    }
}

/// Writing a number into a field clears no field, and changes neither the
/// offset nor the zone nor the era.
pub proof fn lemma_put_keeps(dt: Fields, slot: Slot, v: Option<i64>)
    ensures
        keeps_fields(dt, put(dt, slot, v)),
        put(dt, slot, v).offset == dt.offset,
        put(dt, slot, v).zone == dt.zone,
        put(dt, slot, v).bc == dt.bc,
        put(dt, slot, v).comp == dt.comp,
        put(dt, slot, v).sec_fraction == dt.sec_fraction,
{
    reveal(put);
}

impl DateTime {
    /// Writes the number `v` into the field `slot`, as [`put`] says.
    pub fn set(&mut self, slot: Slot, v: Option<i64>)
        ensures
            final(self)@ == put(old(self)@, slot, v),
    {
        reveal(put);
        match v {
            None => {},
            Some(n) => match slot {
                Slot::Year => {
                    self.year = Some(n);
                },
                Slot::Yday => {
                    self.yday = Some(n);
                },
                Slot::Wday => {
                    self.wday = Some(n);
                },
                Slot::Cwyear => {
                    self.cwyear = Some(n);
                },
                _ => {
                    if n >= 0 {
                        let u: u64 = n as u64;
                        match slot {
                            Slot::Hour => {
                                self.hour = Some(u);
                            },
                            Slot::Min => {
                                self.min = Some(u);
                            },
                            Slot::Sec => {
                                self.sec = Some(u);
                            },
                            Slot::Mon => {
                                self.mon = Some(u);
                            },
                            Slot::Mday => {
                                self.mday = Some(u);
                            },
                            Slot::Cweek => {
                                self.cweek = Some(u);
                            },
                            _ => {
                                self.cwday = Some(u);
                            },
                        }
                    }
                },
            },
        }
    }

    /// Sets the zone text to a copy of `zone`.
    pub fn set_zone(&mut self, zone: &str)
        ensures
            final(self)@ == (Fields { zone: Some(zone@), ..old(self)@ }),
    {
        self.zone = Some(String::from_str(zone));
    }

    /// Sets the digits of the fraction of a second to a copy of `digits`.
    pub fn set_sec_fraction(&mut self, digits: &str)
        ensures
            final(self)@ == (Fields { sec_fraction: Some(digits@), ..old(self)@ }),
    {
        self.sec_fraction = Some(String::from_str(digits));
    }
}

} // verus!
