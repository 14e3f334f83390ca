use arbitrage::clock::{current_timestamp, timestamp_at};

#[test]
fn timestamp_runs_two_hours_ahead_of_utc() {
    assert_eq!(timestamp_at(0, 0), Some("1970-01-01 02:00:00".to_string()));
    assert_eq!(timestamp_at(1_722_976_560, 0), Some("2024-08-06 22:36:00".to_string()));
}

#[test]
fn timestamp_prints_the_fraction_of_a_second() {
    assert_eq!(timestamp_at(0, 500_000_000), Some("1970-01-01 02:00:00.500".to_string()));
    assert_eq!(timestamp_at(0, 123_456_789), Some("1970-01-01 02:00:00.123456789".to_string()));
}

#[test]
fn timestamp_crosses_midnight() {
    assert_eq!(timestamp_at(86_400 - 3_600, 0), Some("1970-01-02 01:00:00".to_string()));
}

#[test]
fn timestamp_beyond_the_calendar_is_none() {
    assert_eq!(timestamp_at(i64::MAX, 0), None);
    assert_eq!(timestamp_at(i64::MAX - 7200, 0), None);
    assert_eq!(timestamp_at(i64::MIN, 0), None);
    assert_eq!(timestamp_at(0, 2_000_000_000), None);
}

#[test]
fn current_timestamp_is_a_date_and_time() {
    let stamp = current_timestamp().expect("the clock is within the calendar");
    assert!(stamp.len() >= 19);
    assert_eq!(stamp.as_bytes()[4], b'-');
    assert_eq!(stamp.as_bytes()[10], b' ');
    assert_eq!(stamp.as_bytes()[13], b':');
}
