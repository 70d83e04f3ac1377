use haw::datetime::DateTime;
use haw::datetime::MAX_UNIX_SECS;
use haw::datetime::MIN_UNIX_SECS;
use haw::duration::Duration;
use haw::granularity::Granularity;

#[test]
fn duration_whole_units_round_toward_zero() {
    let d = Duration::milliseconds(7_384_500);
    assert_eq!(d.whole_milliseconds(), 7_384_500);
    assert_eq!(d.whole_seconds(), 7_384);
    assert_eq!(d.whole_minutes(), 123);
    assert_eq!(d.whole_hours(), 2);
    assert_eq!(d.whole_days(), 0);
    assert_eq!(d.whole_weeks(), 0);

    let d = Duration::milliseconds(-1_500);
    assert_eq!(d.whole_milliseconds(), -1_500);
    assert_eq!(d.whole_seconds(), -1);
    assert_eq!(d.whole_minutes(), 0);
    assert!(d.is_negative());
    assert!(!d.is_positive());
    assert!(!d.is_zero());
}

#[test]
fn duration_constructors_give_exact_lengths() {
    assert_eq!(Duration::seconds(3).whole_milliseconds(), 3_000);
    assert_eq!(Duration::minutes(2).whole_milliseconds(), 120_000);
    assert_eq!(Duration::hours(1).whole_milliseconds(), 3_600_000);
    assert_eq!(Duration::days(1).whole_milliseconds(), 86_400_000);
    assert_eq!(Duration::weeks(1).whole_milliseconds(), 604_800_000);
    assert_eq!(Duration::weeks(2).whole_weeks(), 2);
    assert_eq!(Duration::days(15).whole_weeks(), 2);
    assert_eq!(
        Duration::seconds(i64::MAX).whole_milliseconds(),
        i64::MAX as i128 * 1000
    );
    assert_eq!(Duration::milliseconds(i64::MIN).whole_seconds(), i64::MIN / 1000);
    assert!(Duration::seconds(0).is_zero());
    assert_eq!(Duration::seconds(60), Duration::minutes(1));
    assert_eq!(Duration::milliseconds(-3_600_000), Duration::hours(-1));
    assert_ne!(Duration::milliseconds(1), Duration::seconds(1));
}

#[test]
fn duration_comparison_goes_by_length() {
    assert!(Duration::seconds(2).ge(&Duration::milliseconds(2_000)));
    assert!(Duration::milliseconds(2_001).ge(&Duration::seconds(2)));
    assert!(!Duration::milliseconds(1_999).ge(&Duration::seconds(2)));
    assert!(Duration::milliseconds(-1).ge(&Duration::milliseconds(-2)));
    assert!(!Duration::milliseconds(-1_001).ge(&Duration::seconds(-1)));
}

#[test]
fn datetime_is_bounded_by_the_calendar() {
    assert!(DateTime::from_unix_timestamp(MIN_UNIX_SECS).is_some());
    assert!(DateTime::from_unix_timestamp(MIN_UNIX_SECS - 1).is_none());
    assert!(DateTime::from_unix_timestamp(MAX_UNIX_SECS).is_some());
    assert!(DateTime::from_unix_timestamp(MAX_UNIX_SECS + 1).is_none());
    // the bounds are those of the calendar crate
    assert!(time::OffsetDateTime::from_unix_timestamp(MIN_UNIX_SECS).is_ok());
    assert!(time::OffsetDateTime::from_unix_timestamp(MIN_UNIX_SECS - 1).is_err());
    assert!(time::OffsetDateTime::from_unix_timestamp(MAX_UNIX_SECS).is_ok());
    assert!(time::OffsetDateTime::from_unix_timestamp(MAX_UNIX_SECS + 1).is_err());
}

#[test]
fn datetime_fields_of_a_known_date() {
    // 2023-11-09 15:50:50 UTC
    let date = DateTime::from_unix_timestamp(1_699_545_050).unwrap();
    assert_eq!(date.unix_timestamp(), 1_699_545_050);
    assert_eq!(date.second(), 50);
    assert_eq!(date.minute(), 50);
    assert_eq!(date.hour(), 15);
    assert_eq!(date.day(), 9);
    assert_eq!(DateTime::unix_epoch().unix_timestamp(), 0);
    assert_eq!(DateTime::unix_epoch().day(), 1);
}

#[test]
fn datetime_fields_agree_with_the_calendar_crate() {
    let stamps: Vec<i64> = vec![
        0,
        1,
        59,
        60,
        3_599,
        3_600,
        86_399,
        86_400,
        951_782_400,   // 2000-02-29
        1_699_488_000, // 2023-11-09
        1_703_980_799, // 2023-12-30 23:59:59
        1_704_067_199, // 2023-12-31 23:59:59
        -1,
        -60,
        -86_400,
        -86_401,
        -2_208_988_800, // 1900-01-01
        MIN_UNIX_SECS,
        MAX_UNIX_SECS,
    ];
    for stamp in stamps {
        let ours = DateTime::from_unix_timestamp(stamp).unwrap();
        let theirs = time::OffsetDateTime::from_unix_timestamp(stamp).unwrap();
        assert_eq!(ours.second(), theirs.second(), "second of {}", stamp);
        assert_eq!(ours.minute(), theirs.minute(), "minute of {}", stamp);
        assert_eq!(ours.hour(), theirs.hour(), "hour of {}", stamp);
        assert_eq!(ours.day(), theirs.day(), "day of {}", stamp);
    }
}

#[test]
fn datetime_day_is_not_the_timestamp() {
    // a wrapper that handed its argument back would give 86_400 * 30 here
    let date = DateTime::from_unix_timestamp(86_400 * 30).unwrap();
    assert_eq!(date.day(), 31);
    let date = DateTime::from_unix_timestamp(86_400 * 31).unwrap();
    assert_eq!(date.day(), 1);
}

#[test]
fn datetime_arithmetic() {
    let date = DateTime::from_unix_timestamp(100).unwrap();
    assert_eq!(date.checked_add_seconds(20).unwrap().unix_timestamp(), 120);
    assert_eq!(date.checked_add_seconds(-120).unwrap().unix_timestamp(), -20);
    assert!(date.checked_add_seconds(i64::MAX).is_none());
    assert!(date.checked_add_seconds(MAX_UNIX_SECS).is_none());
    assert!(date.checked_add_seconds(MAX_UNIX_SECS - 100).is_some());
    let later = DateTime::from_unix_timestamp(160).unwrap();
    assert_eq!(later.since(&date).whole_seconds(), 60);
    assert_eq!(date.since(&later).whole_seconds(), -60);
    assert_eq!(date, DateTime::from_unix_timestamp(100).unwrap());
}

#[test]
fn granularity_order_and_units() {
    assert_eq!(Granularity::from_usize(0), Granularity::Second);
    assert_eq!(Granularity::from_usize(1), Granularity::Minute);
    assert_eq!(Granularity::from_usize(2), Granularity::Hour);
    assert_eq!(Granularity::from_usize(3), Granularity::Day);
    assert_eq!(Granularity::Second.as_secs(), 1);
    assert_eq!(Granularity::Minute.as_secs(), 60);
    assert_eq!(Granularity::Hour.as_secs(), 3_600);
    assert_eq!(Granularity::Day.as_secs(), 86_400);
    assert_eq!(Granularity::Day.as_usize(), 3);
}
