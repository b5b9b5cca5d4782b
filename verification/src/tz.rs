//! Fixed-offset model of the configured time zone, and conversion of a civil
//! date-time to seconds since the Unix epoch.
//!
//! The logic of the library only ever reads one thing from a time zone: its
//! UTC offset at the instants of interest. [`Tz`] therefore carries that
//! offset as a plain value; looking a real zone's offset up is delegated to
//! jiff through a trusted wrapper.

use vstd::prelude::*;
use vstd::arithmetic::div_mod::{
    lemma_div_plus_one, lemma_fundamental_div_mod_converse, lemma_hoist_over_denominator,
    lemma_mod_multiples_vanish, lemma_small_mod,
};

verus! {

/// Largest UTC offset magnitude, in seconds, a zone can have (jiff's bound).
pub const MAX_OFFSET_SECONDS: i32 = 93_599;

/// The configured time zone, reduced to what the library's logic reads from
/// it: a UTC offset in seconds, east of Greenwich positive.
#[derive(Clone, Copy, Debug)]
pub struct Tz {
    pub offset_sec: i32,
}

impl Tz {
    /// A zone offset jiff could have produced.
    pub open spec fn wf(self) -> bool {
        -MAX_OFFSET_SECONDS <= self.offset_sec <= MAX_OFFSET_SECONDS
    }

    /// The UTC zone itself: offset zero.
    pub fn utc() -> (r: Tz)
        ensures
            r.offset_sec == 0,
            r.wf(),
    {
        Tz { offset_sec: 0 }
    }

    /// A zone with the given fixed offset.
    pub fn fixed(offset_sec: i32) -> (r: Tz)
        requires
            -93_599 <= offset_sec <= 93_599,
        ensures
            r.offset_sec == offset_sec,
            r.wf(),
    {
        Tz { offset_sec }
    }

    /// The named IANA zone's UTC offset at the given instant, as a `Tz`.
    /// `None` when the zone database does not know the name or the instant
    /// is out of range.
    pub fn lookup(zone_name: &str, at_epoch_sec: i64) -> (r: Option<Tz>)
        ensures
            r matches Some(t) ==> t.wf(),
    {
        match lookup_utc_offset(zone_name, at_epoch_sec) {
            Some(off) => Some(Tz { offset_sec: off }),
            None => None,
        }
    }
}

/// Relies on `jiff::tz::TimeZone::get`, `TimeZone::to_offset` and
/// `jiff::tz::Offset::seconds`: looks the named IANA zone up in jiff's
/// default time zone database and returns its UTC offset, in seconds, at the
/// given instant. jiff documents the offset to lie in `-93_599..=93_599`.
/// `None` when the zone name is unknown to the database or the instant is
/// outside jiff's representable range.
#[verifier::external_body]
fn lookup_utc_offset(zone_name: &str, epoch_sec: i64) -> (r: Option<i32>)
    ensures
        r matches Some(off) ==> -93_599 <= off <= 93_599,
{
    let tz = match jiff::tz::TimeZone::get(zone_name) {
        Ok(t) => t,
        Err(_) => return None,
    };
    let ts = match jiff::Timestamp::from_second(epoch_sec) {
        Ok(t) => t,
        Err(_) => return None,
    };
    Some(tz.to_offset(ts).seconds())
}

/// A civil calendar date, held as plain fields.
#[derive(Clone, Copy, Debug, PartialEq, Eq, Structural)]
pub struct CivilDate {
    pub year: u16,
    pub month: u8,
    pub day: u8,
}

impl CivilDate {
    /// The fields name a real date.
    pub open spec fn wf(self) -> bool {
        &&& self.year <= 9999
        &&& 1 <= self.month <= 12
        &&& 1 <= self.day <= days_in_month(self.year as int, self.month as int)
    }
}

/// Whether `y` is a leap year in the proleptic Gregorian calendar.
pub open spec fn is_leap_year(y: int) -> bool {
    (y % 4 == 0 && y % 100 != 0) || y % 400 == 0
}

/// Days in month `m` of year `y` (`m` between 1 and 12).
pub open spec fn days_in_month(y: int, m: int) -> int {
    if m == 2 {
        if is_leap_year(y) {
            29
        } else {
            28
        }
    } else if m == 4 || m == 6 || m == 9 || m == 11 {
        30
    } else {
        31
    }
}

/// Days from 1970-01-01 to the civil date `y-m-d` in the proleptic Gregorian
/// calendar (negative for earlier dates).
pub open spec fn days_from_civil(y: int, m: int, d: int) -> int {
    let sy = if m <= 2 {
        y - 1
    } else {
        y
    };
    let era = sy / 400;
    let yoe = sy - era * 400;
    let mp = if m <= 2 {
        m + 9
    } else {
        m - 3
    };
    let doy = (153 * mp + 2) / 5 + d - 1;
    let doe = yoe * 365 + yoe / 4 - yoe / 100 + doy;
    era * 146097 + doe - 719468
}

/// Seconds from the epoch to `y-m-d h:mi:s`, read as a UTC civil time.
pub open spec fn civil_secs(y: int, m: int, d: int, h: int, mi: int, s: int) -> int {
    days_from_civil(y, m, d) * 86400 + h * 3600 + mi * 60 + s
}

/// The civil fields a `YYYYMMDDThhmmss` timestamp may carry.
pub open spec fn valid_civil(y: int, m: int, d: int, h: int, mi: int, s: int) -> bool {
    &&& 0 <= y <= 9999
    &&& 1 <= m <= 12
    &&& 1 <= d <= days_in_month(y, m)
    &&& 0 <= h <= 23
    &&& 0 <= mi <= 59
    &&& 0 <= s <= 59
}

/// The minute a wall-clock shows is the minute field of the civil time the
/// seconds encode: extracting `(secs % 3600) / 60` from the encoded civil
/// time gives back exactly its minute.
pub proof fn lemma_civil_minute(y: int, m: int, d: int, h: int, mi: int, s: int)
    requires
        valid_civil(y, m, d, h, mi, s),
    ensures
        (civil_secs(y, m, d, h, mi, s) % 3600) / 60 == mi,
{
    let days = days_from_civil(y, m, d);
    let rest = mi * 60 + s;
    assert(civil_secs(y, m, d, h, mi, s) == 3600 * (days * 24 + h) + rest);
    lemma_mod_multiples_vanish(days * 24 + h, rest, 3600);
    lemma_small_mod(rest as nat, 3600);
    lemma_hoist_over_denominator(s, mi, 60);
    assert(s / 60 == 0);
}

/// Whether `y` is a leap year.
pub fn is_leap_year_x(y: u64) -> (r: bool)
    ensures
        r == is_leap_year(y as int),
{
    (y % 4 == 0 && y % 100 != 0) || y % 400 == 0
}

/// Days in month `m` of year `y`.
pub fn days_in_month_x(y: u64, m: u64) -> (r: u64)
    requires
        1 <= m <= 12,
    ensures
        r == days_in_month(y as int, m as int),
{
    if m == 2 {
        if is_leap_year_x(y) {
            29
        } else {
            28
        }
    } else if m == 4 || m == 6 || m == 9 || m == 11 {
        30
    } else {
        31
    }
}

/// Seconds from the epoch to the given civil date-time read as UTC.
pub fn civil_to_epoch(y: u64, m: u64, d: u64, h: u64, mi: u64, s: u64) -> (r: i64)
    requires
        valid_civil(y as int, m as int, d as int, h as int, mi as int, s as int),
    ensures
        r == civil_secs(y as int, m as int, d as int, h as int, mi as int, s as int),
{
    // Work 400 years (one full era, 146097 days) in the future so that all
    // intermediate values stay non-negative.
    let sy: u64 = if m <= 2 {
        y + 399
    } else {
        y + 400
    };
    let ghost sy0: int = if m <= 2 {
        y - 1
    } else {
        y as int
    };
    assert(sy == sy0 + 400);
    let era: u64 = sy / 400;
    let yoe: u64 = sy % 400;
    proof {
        lemma_div_plus_one(sy0, 400);
        assert(era == sy0 / 400 + 1);
        lemma_fundamental_div_mod_converse(sy as int, 400, era as int, yoe as int);
        assert(yoe == sy0 - (sy0 / 400) * 400) by {
            assert(sy0 + 400 == (sy0 / 400 + 1) * 400 + yoe) by (nonlinear_arith)
                requires
                    sy as int == era as int * 400 + yoe,
                    sy == sy0 + 400,
                    era == sy0 / 400 + 1,
            ;
        };
    }
    let mp: u64 = if m <= 2 {
        m + 9
    } else {
        m - 3
    };
    let doy: u64 = (153 * mp + 2) / 5 + d - 1;
    let doe: u64 = yoe * 365 + yoe / 4 - yoe / 100 + doy;
    assert(yoe <= 399);
    assert(doe <= 399 * 365 + 99 + 365);
    let days_shifted: u64 = era * 146097 + doe;
    assert(era <= 26);
    let days: i64 = days_shifted as i64 - 719468 - 146097;
    proof {
        assert(days == days_from_civil(y as int, m as int, d as int)) by (nonlinear_arith)
            requires
                days == era as int * 146097 + doe - 719468 - 146097,
                era == sy0 / 400 + 1,
                doe == yoe * 365 + yoe as int / 4 - yoe as int / 100 + doy,
                yoe == sy0 - (sy0 / 400) * 400,
                doy == (153 * mp as int + 2) / 5 + d - 1,
                mp == (if m <= 2 { m + 9 } else { m as int - 3 }),
                sy0 == (if m <= 2 { y - 1 } else { y as int }),
                days_from_civil(y as int, m as int, d as int) == (sy0 / 400) * 146097 + ((sy0
                    - (sy0 / 400) * 400) * 365 + (sy0 - (sy0 / 400) * 400) / 4 - (sy0 - (sy0 / 400)
                    * 400) / 100 + ((153 * (if m <= 2 { m + 9 } else { m as int - 3 }) + 2) / 5 + d
                    - 1)) - 719468,
        ;
    }
    days * 86400 + (h * 3600 + mi * 60 + s) as i64
}

} // verus!
