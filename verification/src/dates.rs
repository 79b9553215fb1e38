//! Instants: reading a starting date, and writing the time of a commit.
//!
//! The calendar itself is left to `chrono`. What is decided here is which
//! forms of a date are tried and in what order, what a bare date means, and
//! which offset a commit's time is written with.

use crate::error::SearchError;
use chrono::Datelike;
use chrono::TimeZone;
use vstd::prelude::*;

verus! {

/// The day number, counted from January 1 of year 1 as day 1, of the date that
/// `chrono` reads from `text` under the format `format`; `None` where it reads
/// none.
pub uninterp spec fn parsed_date_days(text: Seq<char>, format: Seq<char>) -> Option<int>;

/// The Unix time of the date and time with offset that `chrono` reads from
/// `text` as RFC 3339; `None` where it reads none.
pub uninterp spec fn parsed_rfc3339_seconds(text: Seq<char>) -> Option<int>;

/// The Unix time of the date and time without offset, taken as UTC, that
/// `chrono` reads from `text` under the format `format`; `None` where it reads
/// none.
pub uninterp spec fn parsed_datetime_seconds(text: Seq<char>, format: Seq<char>) -> Option<int>;

/// The RFC 3339 text that `chrono` writes for the Unix time `seconds` at an
/// offset of `offset_seconds` east of UTC; `None` where the offset or the time
/// is out of its range.
pub uninterp spec fn rfc3339_text(seconds: int, offset_seconds: int) -> Option<Seq<char>>;

/// Reads a calendar date and gives its day number.
///
/// Trusted: `chrono::NaiveDate::parse_from_str`, then
/// `chrono::Datelike::num_days_from_ce` on the date it returns. The result is
/// named, not described; a failure to parse is `None`.
#[verifier::external_body]
fn parse_date_days(text: &str, format: &str) -> (r: Option<i32>)
    ensures
        match r {
            Some(days) => parsed_date_days(text@, format@) == Some(days as int),
            None => parsed_date_days(text@, format@) is None,
        },
{
    match chrono::NaiveDate::parse_from_str(text, format) {
        Ok(date) => Some(date.num_days_from_ce()),
        Err(_) => None,
    }
}

/// Reads an RFC 3339 date and time and gives its Unix time.
///
/// Trusted: `chrono::DateTime::parse_from_rfc3339`, then
/// `chrono::DateTime::timestamp` on the value it returns. The result is named,
/// not described; a failure to parse is `None`.
#[verifier::external_body]
fn parse_rfc3339_seconds(text: &str) -> (r: Option<i64>)
    ensures
        match r {
            Some(seconds) => parsed_rfc3339_seconds(text@) == Some(seconds as int),
            None => parsed_rfc3339_seconds(text@) is None,
        },
{
    match chrono::DateTime::parse_from_rfc3339(text) {
        Ok(instant) => Some(instant.timestamp()),
        Err(_) => None,
    }
}

/// Reads a date and time without offset and gives its Unix time as UTC.
///
/// Trusted: `chrono::NaiveDateTime::parse_from_str`, then
/// `chrono::DateTime::from_naive_utc_and_offset` with `chrono::Utc` and
/// `chrono::DateTime::timestamp`. The result is named, not described; a
/// failure to parse is `None`.
#[verifier::external_body]
fn parse_datetime_seconds(text: &str, format: &str) -> (r: Option<i64>)
    ensures
        match r {
            Some(seconds) => parsed_datetime_seconds(text@, format@) == Some(seconds as int),
            None => parsed_datetime_seconds(text@, format@) is None,
        },
{
    match chrono::NaiveDateTime::parse_from_str(text, format) {
        Ok(naive) => Some(
            chrono::DateTime::<chrono::Utc>::from_naive_utc_and_offset(naive, chrono::Utc).timestamp(),
        ),
        Err(_) => None,
    }
}

/// Writes a Unix time at a fixed offset as RFC 3339.
///
/// Trusted: `chrono::FixedOffset::east_opt`, then
/// `chrono::TimeZone::timestamp_opt` with no nanoseconds, and
/// `chrono::DateTime::to_rfc3339` on the single value it gives. `None` where
/// either of the first two gives nothing. The result is named, not described.
#[verifier::external_body]
fn write_rfc3339(seconds: i64, offset_seconds: i32) -> (r: Option<String>)
    ensures
        match r {
            Some(text) => rfc3339_text(seconds as int, offset_seconds as int) == Some(text@),
            None => rfc3339_text(seconds as int, offset_seconds as int) is None,
        },
{
    let offset = chrono::FixedOffset::east_opt(offset_seconds)?;
    offset.timestamp_opt(seconds, 0).single().map(|instant| instant.to_rfc3339())
}

/// The format of a bare date.
pub open spec fn date_format() -> Seq<char> {
    "%Y-%m-%d"@
}

/// The format of a date and time without offset.
pub open spec fn datetime_format() -> Seq<char> {
    "%Y-%m-%dT%H:%M:%S"@
}

/// The day number of January 1, 1970.
pub const UNIX_EPOCH_DAY: i64 = 719_163;

/// The seconds of one day.
pub const SECONDS_PER_DAY: i64 = 86_400;

/// The Unix time of midnight UTC at the start of the day with number `days`.
pub open spec fn midnight_utc(days: int) -> int {
    (days - UNIX_EPOCH_DAY) * SECONDS_PER_DAY
}

/// The instant that a starting date stands for. The forms are tried in this
/// order: a bare date, which means midnight UTC of that day; RFC 3339 with
/// its offset; a date and time without offset, taken as UTC.
pub open spec fn iso_instant(text: Seq<char>) -> Option<int> {
    match parsed_date_days(text, date_format()) {
        Some(days) => Some(midnight_utc(days)),
        None => match parsed_rfc3339_seconds(text) {
            Some(seconds) => Some(seconds),
            None => parsed_datetime_seconds(text, datetime_format()),
        },
    }
}

/// Chooses among the three readings of a starting date: the bare date first,
/// then RFC 3339, then the date and time without offset.
pub fn instant_from_readings(
    date_days: Option<i32>,
    rfc3339_seconds: Option<i64>,
    datetime_seconds: Option<i64>,
) -> (r: Result<i64, SearchError>)
    ensures
        r == match date_days {
            Some(days) => Ok::<i64, SearchError>(midnight_utc(days as int) as i64),
            None => match rfc3339_seconds {
                Some(seconds) => Ok(seconds),
                None => match datetime_seconds {
                    Some(seconds) => Ok(seconds),
                    None => Err(SearchError::UnrecognizedDate),
                },
            },
        },
        date_days matches Some(days) ==> i64::MIN <= midnight_utc(days as int) <= i64::MAX,
{
    match date_days {
        Some(days) => Ok((days as i64 - UNIX_EPOCH_DAY) * SECONDS_PER_DAY),
        None => match rfc3339_seconds {
            Some(seconds) => Ok(seconds),
            None => match datetime_seconds {
                Some(seconds) => Ok(seconds),
                None => Err(SearchError::UnrecognizedDate),
            },
        },
    }
}

/// Reads a starting date as a Unix time.
///
/// Fails with `UnrecognizedDate` exactly when the text is in none of the three
/// accepted forms.
pub fn parse_iso_to_unix(s: &str) -> (r: Result<i64, SearchError>)
    ensures
        match r {
            Ok(seconds) => iso_instant(s@) == Some(seconds as int),
            Err(e) => iso_instant(s@) is None && e == SearchError::UnrecognizedDate,
        },
{
    let date_days = parse_date_days(s, "%Y-%m-%d");
    if date_days.is_some() {
        return instant_from_readings(date_days, None, None);
    }
    let rfc3339_seconds = parse_rfc3339_seconds(s);
    if rfc3339_seconds.is_some() {
        return instant_from_readings(None, rfc3339_seconds, None);
    }
    instant_from_readings(None, None, parse_datetime_seconds(s, "%Y-%m-%dT%H:%M:%S"))
}

/// The offset, in seconds east of UTC, with which a commit's time is written:
/// its own where that is less than a day either way, and UTC otherwise.
pub open spec fn written_offset(offset_minutes: int) -> int {
    if -1440 < offset_minutes < 1440 {
        offset_minutes * 60
    } else {
        0
    }
}

/// The text of a commit's time: RFC 3339 at the commit's own offset, or at UTC
/// where that cannot be written; `None` where neither can.
pub open spec fn commit_time_text(seconds: int, offset_minutes: int) -> Option<Seq<char>> {
    match rfc3339_text(seconds, written_offset(offset_minutes)) {
        Some(text) => Some(text),
        None => rfc3339_text(seconds, 0),
    }
}

/// Chooses the text of a commit's time between its rendering at the commit's
/// own offset and its rendering at UTC: the first where there is one.
pub fn prefer_own_offset(at_own_offset: Option<String>, at_utc: Option<String>) -> (r: Option<
    String,
>)
    ensures
        r == match at_own_offset {
            Some(text) => Some(text),
            None => at_utc,
        },
{
    match at_own_offset {
        Some(text) => Some(text),
        None => at_utc,
    }
}

/// The offset, in seconds east of UTC, with which a commit's time is written.
pub fn written_offset_seconds(offset_minutes: i32) -> (r: i32)
    ensures
        r == written_offset(offset_minutes as int),
{
    if -1440 < offset_minutes && offset_minutes < 1440 {
        offset_minutes * 60
    } else {
        0
    }
}

/// Writes the time of a commit, given in seconds since the Unix epoch and
/// minutes east of UTC, as RFC 3339 with that offset kept.
///
/// Gives `None` exactly when the time lies outside the calendar's range.
pub fn time_to_iso8601(seconds: i64, offset_minutes: i32) -> (r: Option<String>)
    ensures
        match r {
            Some(text) => commit_time_text(seconds as int, offset_minutes as int) == Some(text@),
            None => commit_time_text(seconds as int, offset_minutes as int) is None,
        },
{
    let offset_seconds = written_offset_seconds(offset_minutes);
    let at_own_offset = write_rfc3339(seconds, offset_seconds);
    if at_own_offset.is_some() {
        return prefer_own_offset(at_own_offset, None);
    }
    prefer_own_offset(None, write_rfc3339(seconds, 0))
}

} // verus!
