use chrono::{Datelike, Timelike};
use vstd::prelude::*;
use crate::formats::days_in_month;

verus! {

/// The first year of the calendar of `chrono`.
pub const MIN_YEAR: i32 = -262_143;

/// The last year of the calendar of `chrono`.
pub const MAX_YEAR: i32 = 262_142;

/// The six numbers are a day of the calendar and a time of that day.
pub open spec fn valid_civil(
    year: i32,
    month: u32,
    day: u32,
    hour: u32,
    minute: u32,
    second: u32,
) -> bool {
    &&& MIN_YEAR <= year <= MAX_YEAR
    &&& 1 <= month <= 12
    &&& 1 <= day <= days_in_month(year as int, month as int)
    &&& hour < 24
    &&& minute < 60
    &&& second < 60
}

/// The seconds from 1970-01-01 00:00:00 to the given day and time, as
/// `chrono` counts them; none where the calendar has no such day or the day
/// no such time.
pub uninterp spec fn civil_seconds(
    year: i32,
    month: u32,
    day: u32,
    hour: u32,
    minute: u32,
    second: u32,
) -> Option<i64>;

/// Builds the day with `chrono::NaiveDate::from_ymd_opt` and the time of day
/// with `NaiveDate::and_hms_opt`, and counts the seconds with
/// `DateTime::timestamp`. The count is named, not described. There is one
/// exactly where the day exists in the calendar, within its years, and the
/// time is one of the day's 24 hours of 60 minutes of 60 seconds.
#[verifier::external_body]
pub(crate) fn seconds_of_civil(
    year: i32,
    month: u32,
    day: u32,
    hour: u32,
    minute: u32,
    second: u32,
) -> (seconds: Option<i64>)
    ensures
        seconds == civil_seconds(year, month, day, hour, minute, second),
        seconds is Some <==> valid_civil(year, month, day, hour, minute, second),
{
    match chrono::NaiveDate::from_ymd_opt(year, month, day) {
        Some(date) => match date.and_hms_opt(hour, minute, second) {
            Some(time) => Some(time.and_utc().timestamp()),
            None => None,
        },
        None => None,
    }
}

/// The day and the time of day that lie the given seconds after 1970-01-01
/// 00:00:00, as `chrono` reckons them: year, month, day, hour, minute and
/// second; none where the calendar does not reach that far.
pub uninterp spec fn seconds_civil(seconds: i64) -> Option<(i32, u32, u32, u32, u32, u32)>;

/// Builds the date and time with `chrono::DateTime::from_timestamp` and
/// reads its six fields with the methods of `Datelike` and `Timelike`. The
/// fields are named, not described.
#[verifier::external_body]
pub(crate) fn civil_of_seconds(seconds: i64) -> (civil: Option<(i32, u32, u32, u32, u32, u32)>)
    ensures
        civil == seconds_civil(seconds),
{
    match chrono::DateTime::from_timestamp(seconds, 0) {
        Some(time) => {
            let time = time.naive_utc();
            Some((time.year(), time.month(), time.day(), time.hour(), time.minute(), time.second()))
        },
        None => None,
    }
}

} // verus!
