//! Reading the clock, and writing a time down.

use crate::types::opt_text;
use chrono::Datelike;
use chrono::Timelike;
use std::fmt::Write;
use vstd::prelude::*;

verus! {

/// A date and a time of day, as the clock of the machine gives them.
#[derive(Clone, Copy, Debug, PartialEq, Eq, Structural)]
pub struct LocalTime {
    pub year: i32,
    pub month: u32,
    pub day: u32,
    pub hour: u32,
    pub minute: u32,
    pub second: u32,
    /// The milliseconds since the second began; in a leap second a
    /// thousand and more.
    pub millis: u32,
}

/// `chrono::Utc::now` and `DateTime::timestamp`: the seconds since the
/// beginning of 1970 by the machine's clock. Nothing is claimed of the
/// number; two readings may differ in any way.
#[verifier::external_body]
pub(crate) fn unix_now() -> (seconds: i64) {
    chrono::Utc::now().timestamp()
}

/// `chrono::Local::now`, with the fields of the result as `Datelike` and
/// `Timelike` give them and the milliseconds of `timestamp_subsec_millis`.
/// Claimed are the ranges that chrono documents: months from 1 to 12, days
/// from 1 to 31, hours up to 23, minutes and seconds up to 59.
#[verifier::external_body]
pub(crate) fn local_now() -> (t: LocalTime)
    ensures
        1 <= t.month <= 12,
        1 <= t.day <= 31,
        t.hour <= 23,
        t.minute <= 59,
        t.second <= 59,
{
    let now = chrono::Local::now();
    LocalTime {
        year: now.year(),
        month: now.month(),
        day: now.day(),
        hour: now.hour(),
        minute: now.minute(),
        second: now.second(),
        millis: now.timestamp_subsec_millis(),
    }
}

/// What chrono writes for a date and a time of day under a format of
/// `strftime`, or nothing where it takes the fields for no date or time,
/// or the format for none.
pub uninterp spec fn formatted_time(
    year: int,
    month: int,
    day: int,
    hour: int,
    minute: int,
    second: int,
    millis: int,
    format: Seq<char>,
) -> Option<Seq<char>>;

/// `chrono::NaiveDate::from_ymd_opt`, `NaiveDate::and_hms_milli_opt` and
/// `NaiveDateTime::format`: the date and time of `t` written under
/// `format`. The result depends on the fields and the format alone, and
/// that is all that is claimed: it has a name, and no more is said of it.
#[verifier::external_body]
pub(crate) fn format_time(t: &LocalTime, format: &str) -> (text: Option<String>)
    ensures
        opt_text(text) == formatted_time(
            t.year as int,
            t.month as int,
            t.day as int,
            t.hour as int,
            t.minute as int,
            t.second as int,
            t.millis as int,
            format@,
        ),
{
    let date = chrono::NaiveDate::from_ymd_opt(t.year, t.month, t.day)?;
    let time = date.and_hms_milli_opt(t.hour, t.minute, t.second, t.millis)?;
    let mut text = String::new();
    write!(text, "{}", time.format(format)).ok()?;
    Some(text)
}

/// The format of the times in the log: year, month and day with hyphens
/// between them, a space, and hour, minute and second with colons between
/// them, the second with three decimals.
pub open spec fn timestamp_format() -> Seq<char> {
    "%Y-%m-%d %H:%M:%S%.3f"@
}

/// A date and time as the log shows it: written under the format of the
/// log, and empty where it cannot be written.
pub open spec fn timestamp_text(t: LocalTime) -> Seq<char> {
    match formatted_time(
        t.year as int,
        t.month as int,
        t.day as int,
        t.hour as int,
        t.minute as int,
        t.second as int,
        t.millis as int,
        timestamp_format(),
    ) {
        Some(text) => text,
        None => Seq::empty(),
    }
}

/// Writes a date and time down as the log shows it. Fields that make no
/// date or time give an empty text.
pub fn format_timestamp(t: &LocalTime) -> (text: String)
    ensures
        text@ == timestamp_text(*t),
{
    match format_time(t, "%Y-%m-%d %H:%M:%S%.3f") {
        Some(text) => text,
        None => String::new(),
    }
}

} // verus!
