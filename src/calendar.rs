//! Calendar dates and times of day for MP4 timestamps, which count seconds
//! from midnight, January 1, 1904.

use vstd::prelude::*;

verus! {

/// The calendar date `(year, month, day)` that lies `days` days after the
/// date `(year, month, day)` given, as the `time` crate computes it; `None`
/// where it cannot.
pub uninterp spec fn date_after(year: i32, month: u8, day: u8, days: u32) -> Option<(i32, u8, u8)>;

/// Relies on `time::Month::try_from`, `time::Date::from_calendar_date` and
/// `time::Date::checked_add`: the date `days` whole days after the given
/// one, with month in `1..=12` and day in `1..=31` as that crate documents.
/// A start in the years 1900 to 2100 with a day that every month has, moved
/// by at most 49 710 days (every `u32` number of seconds), stays within that
/// crate's range (up to the year 9999).
#[verifier::external_body]
fn date_after_days(year: i32, month: u8, day: u8, days: u32) -> (r: Option<(i32, u8, u8)>)
    ensures
        r == date_after(year, month, day, days),
        (1900 <= year <= 2100 && 1 <= month <= 12 && 1 <= day <= 28 && days <= 49_710) ==> r is Some,
        r is Some ==> 1 <= r.unwrap().1 <= 12 && 1 <= r.unwrap().2 <= 31,
{
    let m = time::Month::try_from(month).ok()?;
    let start = time::Date::from_calendar_date(year, m, day).ok()?;
    let date = start.checked_add(time::Duration::days(days as i64))?;
    Some((date.year(), date.month() as u8, date.day()))
}

/// A calendar date and time of day (UTC by convention).
#[derive(Debug, Clone, Copy, PartialEq, Eq)]
pub struct DateTime {
    pub year: i32,
    pub month: u8,
    pub day: u8,
    pub hour: u8,
    pub minute: u8,
    pub second: u8,
}

/// Midnight, January 1, 1904: time zero of MP4 timestamps.
pub fn mp4_time_zero() -> (r: DateTime)
    ensures
        r == (DateTime { year: 1904, month: 1, day: 1, hour: 0, minute: 0, second: 0 }),
{
    DateTime { year: 1904, month: 1, day: 1, hour: 0, minute: 0, second: 0 }
}

impl DateTime {
    /// The date `date` at the time of day that `seconds` (since midnight
    /// 1904-01-01) falls on.
    pub fn from_parts(date: (i32, u8, u8), seconds: u32) -> (r: DateTime)
        ensures
            r.year == date.0 && r.month == date.1 && r.day == date.2,
            r.hour == (seconds % 86400) / 3600,
            r.minute == (seconds % 3600) / 60,
            r.second == seconds % 60,
    {
        let in_day = seconds % 86400;
        proof {
            assert(in_day % 3600 == seconds % 3600) by (nonlinear_arith)
                requires in_day == seconds % 86400;
            assert(in_day % 60 == seconds % 60) by (nonlinear_arith)
                requires in_day == seconds % 86400;
        }
        DateTime {
            year: date.0,
            month: date.1,
            day: date.2,
            hour: (in_day / 3600) as u8,
            minute: ((in_day % 3600) / 60) as u8,
            second: (in_day % 60) as u8,
        }
    }

    /// The date and time `seconds` after midnight, January 1, 1904.
    pub fn from_mp4_seconds(seconds: u32) -> (r: DateTime)
        ensures
            r == mp4_datetime(seconds),
    {
        let zero = mp4_time_zero();
        match date_after_days(zero.year, zero.month, zero.day, seconds / 86400) {
            Some(d) => DateTime::from_parts(d, seconds),
            None => {
                proof {
                    assert(seconds / 86400 <= 49_710);
                }
                mp4_time_zero()
            },
        }
    }
}

/// The date and time `seconds` after midnight, January 1, 1904: the calendar
/// date of the whole days, the time of day of the rest.
pub open spec fn mp4_datetime(seconds: u32) -> DateTime {
    let d = date_after(1904, 1, 1, seconds / 86400).unwrap();
    DateTime {
        year: d.0,
        month: d.1,
        day: d.2,
        hour: ((seconds % 86400) / 3600) as u8,
        minute: ((seconds % 3600) / 60) as u8,
        second: (seconds % 60) as u8,
    }
}

} // verus!
