use ash_meet_bot::time::{
    following_day, month_length, parse_time_to_utc, resolve_interval, utc8_now, utc8_to_utc,
    CivilDate, LocalDateTime, TimeOfDay, TimeParseError,
};
use chrono::format::ParseErrorKind;
use chrono::{DateTime, Datelike, FixedOffset, Timelike};

const HOUR: i128 = 3_600_000_000_000;

fn reading(t: DateTime<FixedOffset>) -> LocalDateTime {
    LocalDateTime {
        date: CivilDate { year: t.year(), month: t.month(), day: t.day() },
        time: TimeOfDay { secs: t.num_seconds_from_midnight(), nano: t.nanosecond() },
    }
}

fn nanos(rfc3339: &str) -> i128 {
    DateTime::parse_from_rfc3339(rfc3339).unwrap().timestamp_nanos_opt().unwrap() as i128
}

fn local(rfc3339: &str) -> LocalDateTime {
    reading(DateTime::parse_from_rfc3339(rfc3339).unwrap())
}

fn utc8_reading_nanos(now: LocalDateTime) -> i128 {
    let date = chrono::NaiveDate::from_ymd_opt(now.date.year, now.date.month, now.date.day).unwrap();
    let time = chrono::NaiveTime::from_num_seconds_from_midnight_opt(now.time.secs, now.time.nano).unwrap();
    date.and_time(time).and_utc().timestamp_nanos_opt().unwrap() as i128 - 8 * HOUR
}

#[test]
fn succ_day_on_previous_time() {
    assert_eq!(
        parse_time_to_utc("12:00", None, local("2023-04-01T10:00:00+08:00")).unwrap().0,
        nanos("2023-04-01T12:00:00+08:00")
    );
    assert_eq!(
        parse_time_to_utc("8:00", None, local("2023-04-01T10:00:00+08:00")).unwrap().0,
        nanos("2023-04-02T08:00:00+08:00")
    );
}

#[test]
fn return_now_on_empty_time() {
    let now = utc8_now();
    assert_eq!(parse_time_to_utc("", None, now).unwrap().0, utc8_reading_nanos(now));
}

#[test]
fn test_parse_date() {
    let now = utc8_now();
    assert_eq!(
        parse_time_to_utc("08:00 01/06/2023", None, now).unwrap().0,
        nanos("2023-06-01T08:00:00+08:00")
    );
}

#[test]
fn test_ill_formed_time() {
    let now = utc8_now();
    match parse_time_to_utc("05:12 1/20/1111", None, now) {
        Err(TimeParseError::TimeError(e)) => assert_eq!(e.kind(), ParseErrorKind::OutOfRange),
        other => panic!("expected a time error, got {:?}", other),
    }
}

#[test]
fn test_duration() {
    let now = local("2023-06-01T08:00:00Z");
    let (start, end) = parse_time_to_utc("16:00 01/06/2023", Some("2h"), now).unwrap();
    assert_eq!((start, end), (nanos("2023-06-01T08:00:00Z"), nanos("2023-06-01T08:00:00Z") + 2 * HOUR));
}

#[test]
fn utc_start_at_noon_local() {
    let r = parse_time_to_utc("12:00", None, local("2023-04-01T10:00:00+08:00")).unwrap();
    assert_eq!(r.0, nanos("2023-04-01T04:00:00Z"));
    assert_eq!(r.1, r.0);
}

#[test]
fn rollover_to_next_utc_day() {
    let r = parse_time_to_utc("8:00", None, local("2023-04-01T10:00:00+08:00")).unwrap();
    assert_eq!(r.0, nanos("2023-04-02T00:00:00Z"));
}

#[test]
fn same_time_of_day_does_not_roll_over() {
    let r = parse_time_to_utc("10:00", None, local("2023-04-01T10:00:00+08:00")).unwrap();
    assert_eq!(r.0, nanos("2023-04-01T10:00:00+08:00"));
}

#[test]
fn rollover_across_month_and_year() {
    let r = parse_time_to_utc("09:00", None, local("2023-12-31T23:00:00+08:00")).unwrap();
    assert_eq!(r.0, nanos("2024-01-01T09:00:00+08:00"));
    let r = parse_time_to_utc("00:00", None, local("2024-02-28T12:00:00+08:00")).unwrap();
    assert_eq!(r.0, nanos("2024-02-29T00:00:00+08:00"));
}

#[test]
fn clock_time_kept_on_local_wall_clock() {
    let (start, end) = parse_time_to_utc("09:30", None, local("2023-04-01T10:00:00+08:00")).unwrap();
    assert_eq!(start, end);
    let day = 24 * HOUR;
    assert_eq!((start + 8 * HOUR).rem_euclid(day), 9 * HOUR + 30 * 60 * 1_000_000_000);
}

#[test]
fn explicit_past_date_is_kept() {
    let r = parse_time_to_utc("08:00 01/04/2023", None, local("2023-04-01T10:00:00+08:00")).unwrap();
    assert_eq!(r.0, nanos("2023-04-01T08:00:00+08:00"));
}

#[test]
fn duration_minutes() {
    let (start, end) = parse_time_to_utc("14:00 01/06/2024", Some("90m"), local("2024-05-01T00:00:00+08:00")).unwrap();
    assert_eq!(start, nanos("2024-06-01T14:00:00+08:00"));
    assert_eq!(end - start, 90 * 60 * 1_000_000_000);
}

#[test]
fn negative_duration_is_rejected() {
    let now = local("2023-04-01T10:00:00+08:00");
    assert_eq!(resolve_interval(Some((12, 0)), None, Some((-1, 0)), now), None);
    assert_eq!(resolve_interval(Some((12, 0)), None, Some((0, -5)), now), None);
    let start = nanos("2023-04-01T12:00:00+08:00");
    assert_eq!(resolve_interval(Some((12, 0)), None, Some((60, 5)), now), Some((start, start + 60_000_000_005)));
}

#[test]
fn resolve_interval_uses_reference_time_without_clock() {
    let now = local("2023-04-01T10:00:00.250+08:00");
    let start = nanos("2023-04-01T10:00:00.250+08:00");
    assert_eq!(resolve_interval(None, None, None, now), Some((start, start)));
}

#[test]
fn malformed_clock_is_an_error() {
    let now = local("2023-04-01T10:00:00+08:00");
    assert!(matches!(parse_time_to_utc("noon", None, now), Err(TimeParseError::TimeError(_))));
    assert!(matches!(parse_time_to_utc("25:00", None, now), Err(TimeParseError::TimeError(_))));
}

#[test]
fn day_out_of_month_is_an_error() {
    let now = local("2023-04-01T10:00:00+08:00");
    assert!(matches!(parse_time_to_utc("10:00 31/04/2023", None, now), Err(TimeParseError::TimeError(_))));
}

#[test]
fn malformed_duration_is_an_error() {
    let now = local("2023-04-01T10:00:00+08:00");
    assert!(matches!(parse_time_to_utc("12:00", Some("soon"), now), Err(TimeParseError::DurationError(_))));
}

#[test]
fn extra_whitespace_between_words() {
    let r = parse_time_to_utc("  16:00   01/06/2023  ", None, local("2023-04-01T10:00:00+08:00")).unwrap();
    assert_eq!(r.0, nanos("2023-06-01T16:00:00+08:00"));
}

#[test]
fn early_and_late_dates() {
    let now = local("2023-04-01T10:00:00+08:00");
    let r = parse_time_to_utc("00:00 01/01/1970", None, now).unwrap();
    assert_eq!(r.0, -8 * HOUR);
    let r = parse_time_to_utc("12:00 29/02/2000", None, now).unwrap();
    assert_eq!(r.0, nanos("2000-02-29T12:00:00+08:00"));
}

#[test]
fn utc8_now_is_a_valid_reading() {
    let now = utc8_now();
    assert!((1..=12).contains(&now.date.month));
    assert!(now.time.secs < 86400);
    let utc = chrono::Utc::now().timestamp_nanos_opt().unwrap() as i128;
    let diff = utc8_reading_nanos(now) - utc;
    assert!(diff.abs() < 60 * 1_000_000_000);
}

#[test]
fn month_lengths_follow_leap_years() {
    assert_eq!(month_length(2024, 2), 29);
    assert_eq!(month_length(2023, 2), 28);
    assert_eq!(month_length(1900, 2), 28);
    assert_eq!(month_length(2000, 2), 29);
    assert_eq!(month_length(0, 2), 29);
    assert_eq!(month_length(-100, 2), 28);
    assert_eq!(month_length(-400, 2), 29);
    assert_eq!(month_length(2023, 4), 30);
    assert_eq!(month_length(2023, 12), 31);
}

#[test]
fn following_days() {
    let d = |year, month, day| CivilDate { year, month, day };
    assert_eq!(following_day(d(2023, 4, 1)), d(2023, 4, 2));
    assert_eq!(following_day(d(2023, 4, 30)), d(2023, 5, 1));
    assert_eq!(following_day(d(2023, 12, 31)), d(2024, 1, 1));
    assert_eq!(following_day(d(2023, 2, 28)), d(2023, 3, 1));
    assert_eq!(following_day(d(2024, 2, 28)), d(2024, 2, 29));
}

#[test]
fn utc8_wall_clock_to_instant() {
    let t = TimeOfDay { secs: 8 * 3600, nano: 5 };
    assert_eq!(utc8_to_utc(CivilDate { year: 1970, month: 1, day: 1 }, t), 5);
    let t = TimeOfDay { secs: 0, nano: 0 };
    assert_eq!(utc8_to_utc(CivilDate { year: 1, month: 1, day: 1 }, t), DateTime::parse_from_rfc3339("0001-01-01T00:00:00+08:00").unwrap().timestamp() as i128 * 1_000_000_000);
}
