//! The wall clock.

use vstd::prelude::*;
use crate::date::{spec_is_valid_date, Date};

verus! {

/// One reading of the clock, in UTC: the seconds since the epoch, the same
/// moment written after RFC 3339, and year, month and day of its date.
pub struct ClockReading {
    pub seconds: i64,
    pub text: String,
    pub year: i32,
    pub month: u32,
    pub day: u32,
}

/// The date that three numbers of the clock name: none where the year is
/// outside 0 to 9999 or the day does not exist.
pub open spec fn spec_date_of(year: int, month: int, day: int) -> Option<Date> {
    if spec_is_valid_date(year, month, day) {
        Some(Date { year: year as u16, month: month as u8, day: day as u8 })
    } else {
        None
    }
}

impl ClockReading {
    /// The date of the reading, where its numbers name a day of the years 0
    /// to 9999.
    pub open spec fn spec_date(&self) -> Option<Date> {
        spec_date_of(self.year as int, self.month as int, self.day as int)
    }

    /// The date of the reading; `None` where its numbers name a day outside
    /// the years 0 to 9999, or no day at all.
    pub fn date(&self) -> (date: Option<Date>)
        ensures
            date == self.spec_date(),
            date matches Some(d) ==> d.valid(),
    {
        date_of(self.year, self.month, self.day)
    }
}

/// Reads the clock.
///
/// Calls `chrono::Utc::now` once and reads the moment with `timestamp`,
/// `to_rfc3339` and, for its `date_naive`, with `year`, `month` and `day` of
/// `chrono::Datelike`. Trusted: nothing. What comes back depends on when the
/// call is made. Where the system's clock is set before 1970, `Utc::now`
/// panics.
#[verifier::external_body]
pub(crate) fn read_clock() -> (reading: ClockReading) {
    let now = chrono::Utc::now();
    let date = now.date_naive();
    ClockReading {
        seconds: now.timestamp(),
        text: now.to_rfc3339(),
        year: chrono::Datelike::year(&date),
        month: chrono::Datelike::month(&date),
        day: chrono::Datelike::day(&date),
    }
}

/// The seconds of a reading as a count from the epoch on: 0 for a reading
/// before 1970.
pub fn seconds_of(reading: &ClockReading) -> (seconds: u64)
    ensures
        seconds == (if reading.seconds < 0 {
            0
        } else {
            reading.seconds as int
        }),
{
    if reading.seconds < 0 {
        0
    } else {
        reading.seconds as u64
    }
}

/// The date that three numbers of the clock name: `None` where the year is
/// outside 0 to 9999 or the day does not exist.
pub fn date_of(year: i32, month: u32, day: u32) -> (date: Option<Date>)
    ensures
        date == spec_date_of(year as int, month as int, day as int),
        date.is_some() == spec_is_valid_date(year as int, month as int, day as int),
        date matches Some(d) ==> d.year == year && d.month == month && d.day == day && d.valid(),
{
    if 0 <= year && year <= 9999 && month <= 12 && day <= 31 {
        Date::new(year as u16, month as u8, day as u8)
    } else {
        None
    }
}

/// The current time in seconds since the epoch; 0 for a reading that lies
/// before 1970. Which time that is nobody can say beforehand; `seconds_of`
/// says how a reading of the clock is counted.
pub fn now_seconds() -> (seconds: u64)
    ensures
        seconds <= i64::MAX,
{
    let reading = read_clock();
    seconds_of(&reading)
}

/// The current time in UTC, written after RFC 3339. Nothing is known of the
/// text beforehand.
pub fn now_text() -> (text: String) {
    read_clock().text
}

/// Today's date in UTC; `None` where the clock names a day outside the
/// years 0 to 9999. Which day that is nobody can say beforehand;
/// `ClockReading::date` says how a reading of the clock is read.
pub fn today() -> (date: Option<Date>)
    ensures
        date matches Some(d) ==> d.valid(),
{
    let reading = read_clock();
    reading.date()
}

} // verus!
