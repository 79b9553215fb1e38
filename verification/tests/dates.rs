use commit_similarity_search::dates::{
    instant_from_readings, parse_iso_to_unix, prefer_own_offset, time_to_iso8601,
    written_offset_seconds,
};
use commit_similarity_search::error::SearchError;

#[test]
fn bare_date_is_midnight_utc() {
    assert_eq!(parse_iso_to_unix("2024-01-01"), Ok(1_704_067_200));
    assert_eq!(parse_iso_to_unix("1970-01-01"), Ok(0));
    assert_eq!(parse_iso_to_unix("1969-12-31"), Ok(-86_400));
    assert_eq!(parse_iso_to_unix("2000-02-29"), Ok(951_782_400));
}

#[test]
fn rfc3339_keeps_its_offset() {
    assert_eq!(parse_iso_to_unix("2024-01-01T00:00:00Z"), Ok(1_704_067_200));
    assert_eq!(parse_iso_to_unix("2024-01-01T00:00:00+02:00"), Ok(1_704_060_000));
    assert_eq!(parse_iso_to_unix("2024-01-01T00:00:00-05:00"), Ok(1_704_085_200));
    assert_eq!(parse_iso_to_unix("1996-12-19T16:39:57-08:00"), Ok(851_042_397));
}

#[test]
fn date_and_time_without_offset_is_utc() {
    assert_eq!(parse_iso_to_unix("2024-01-01T00:00:00"), Ok(1_704_067_200));
    assert_eq!(parse_iso_to_unix("2024-01-01T12:30:15"), Ok(1_704_112_215));
}

#[test]
fn other_texts_are_not_dates() {
    assert_eq!(parse_iso_to_unix(""), Err(SearchError::UnrecognizedDate));
    assert_eq!(parse_iso_to_unix("yesterday"), Err(SearchError::UnrecognizedDate));
    assert_eq!(parse_iso_to_unix("2024-13-01"), Err(SearchError::UnrecognizedDate));
    assert_eq!(parse_iso_to_unix("2023-02-29"), Err(SearchError::UnrecognizedDate));
    assert_eq!(parse_iso_to_unix("01/02/2024"), Err(SearchError::UnrecognizedDate));
}

#[test]
fn readings_are_preferred_in_order() {
    // Day 719163 is January 1, 1970.
    assert_eq!(instant_from_readings(Some(719_163), Some(5), Some(7)), Ok(0));
    assert_eq!(instant_from_readings(Some(719_164), None, None), Ok(86_400));
    assert_eq!(instant_from_readings(Some(719_162), None, None), Ok(-86_400));
    assert_eq!(instant_from_readings(None, Some(5), Some(7)), Ok(5));
    assert_eq!(instant_from_readings(None, None, Some(7)), Ok(7));
    assert_eq!(instant_from_readings(None, None, None), Err(SearchError::UnrecognizedDate));
    assert_eq!(instant_from_readings(Some(i32::MAX), None, None), Ok(185_480_451_417_600));
    assert_eq!(instant_from_readings(Some(i32::MIN), None, None), Ok(-185_604_722_870_400));
}

#[test]
fn commit_time_keeps_its_offset() {
    assert_eq!(time_to_iso8601(1_704_067_200, 0), Some("2024-01-01T00:00:00+00:00".to_string()));
    assert_eq!(time_to_iso8601(1_704_067_200, 120), Some("2024-01-01T02:00:00+02:00".to_string()));
    assert_eq!(
        time_to_iso8601(1_704_067_200, -300),
        Some("2023-12-31T19:00:00-05:00".to_string())
    );
    assert_eq!(time_to_iso8601(1_704_067_200, 330), Some("2024-01-01T05:30:00+05:30".to_string()));
    assert_eq!(time_to_iso8601(0, 0), Some("1970-01-01T00:00:00+00:00".to_string()));
    assert_eq!(time_to_iso8601(-1, 0), Some("1969-12-31T23:59:59+00:00".to_string()));
}

#[test]
fn commit_time_with_an_offset_of_a_day_or_more_is_written_at_utc() {
    let at_utc = Some("2024-01-01T00:00:00+00:00".to_string());
    assert_eq!(time_to_iso8601(1_704_067_200, 1440), at_utc);
    assert_eq!(time_to_iso8601(1_704_067_200, -1440), at_utc);
    assert_eq!(time_to_iso8601(1_704_067_200, i32::MAX), at_utc);
    assert_eq!(time_to_iso8601(1_704_067_200, i32::MIN), at_utc);
    assert_eq!(
        time_to_iso8601(1_704_067_200, 1439),
        Some("2024-01-01T23:59:00+23:59".to_string())
    );
}

#[test]
fn commit_time_outside_the_calendar_has_no_text() {
    assert_eq!(time_to_iso8601(i64::MAX, 0), None);
    assert_eq!(time_to_iso8601(i64::MIN, 60), None);
}

#[test]
fn written_offset_is_the_commits_own_within_a_day() {
    assert_eq!(written_offset_seconds(0), 0);
    assert_eq!(written_offset_seconds(330), 19_800);
    assert_eq!(written_offset_seconds(-720), -43_200);
    assert_eq!(written_offset_seconds(1439), 86_340);
    assert_eq!(written_offset_seconds(-1439), -86_340);
    assert_eq!(written_offset_seconds(1440), 0);
    assert_eq!(written_offset_seconds(-1440), 0);
    assert_eq!(written_offset_seconds(i32::MAX), 0);
}

#[test]
fn own_offset_is_preferred_to_utc() {
    let own = Some("own".to_string());
    let utc = Some("utc".to_string());
    assert_eq!(prefer_own_offset(own.clone(), utc.clone()), own);
    assert_eq!(prefer_own_offset(own.clone(), None), own);
    assert_eq!(prefer_own_offset(None, utc.clone()), utc);
    assert_eq!(prefer_own_offset(None, None), None);
}
