use haw::aggregator::U64SumAggregator;
use haw::conf::HawConf;
use haw::conf::RetentionPolicy;
use haw::datetime::DateTime;
use haw::duration::Duration;
use haw::hierarchical::Haw;
use haw::plan::Aggregation;
use haw::plan::ExecutionPlan;
use haw::plan::WheelAggregation;
use haw::range::WheelRange;

/// A date and time of day in UTC.
fn utc(year: i32, month: u8, day: u8, hour: u8, minute: u8, second: u8) -> DateTime {
    let month = time::Month::try_from(month).unwrap();
    let date = time::Date::from_calendar_date(year, month, day).unwrap();
    let stamp = date
        .with_hms(hour, minute, second)
        .unwrap()
        .assume_utc()
        .unix_timestamp();
    DateTime::from_unix_timestamp(stamp).unwrap()
}

#[test]
fn delta_advance_test() {
    let mut haw: Haw<U64SumAggregator> = Haw::new(0, Default::default());
    // oldest to newest
    let deltas = vec![Some(10), None, Some(50), None];

    haw.delta_advance(deltas);

    assert_eq!(haw.interval(Duration::seconds(1)), Some(0));
    assert_eq!(haw.interval(Duration::seconds(2)), Some(50));
    assert_eq!(haw.interval(Duration::seconds(3)), Some(50));
    assert_eq!(haw.interval(Duration::seconds(4)), Some(60));
}

#[test]
fn range_query_sec_test() {
    // 2023-11-09 00:00:00
    let watermark = 1699488000000;
    let conf = HawConf::default().with_watermark(watermark);
    let mut haw: Haw<U64SumAggregator> = Haw::new(watermark, conf);
    // oldest to newest
    let deltas = vec![Some(10), None, Some(50), None];

    haw.delta_advance(deltas);

    assert_eq!(haw.interval(Duration::seconds(1)), Some(0));
    assert_eq!(haw.interval(Duration::seconds(2)), Some(50));
    assert_eq!(haw.interval(Duration::seconds(3)), Some(50));
    assert_eq!(haw.interval(Duration::seconds(4)), Some(60));

    let start = utc(2023, 11, 09, 00, 00, 00);
    let end = utc(2023, 11, 09, 00, 00, 02);

    let agg = haw.combine_range((start, end).into());
    assert_eq!(agg, Some(10));

    let start = utc(2023, 11, 09, 00, 00, 00);
    let end = utc(2023, 11, 09, 00, 00, 04);
    let agg = haw.combine_range((start, end).into());
    assert_eq!(agg, Some(60));
}

#[test]
fn range_query_min_test() {
    // 2023-11-09 00:00:00
    let watermark = 1699488000000;
    let conf = HawConf::default().with_watermark(watermark);
    let mut haw: Haw<U64SumAggregator> = Haw::new(watermark, conf);

    let deltas: Vec<Option<u64>> = (0..180).map(|_| Some(1)).collect();
    haw.delta_advance(deltas);
    assert_eq!(haw.watermark(), 1699488180000);

    // time is 2023-11-09 00:03:00
    // queryable minutes are 00:00 - 00:03
    let start = utc(2023, 11, 09, 00, 00, 00);
    let end = utc(2023, 11, 09, 00, 03, 00);

    let agg = haw.combine_range((start, end).into());
    // 1 for each second rolled-up over 3 minutes > 180
    assert_eq!(agg, Some(180));
}

#[test]
fn range_query_hour_test() {
    // 2023-11-09 00:00:00
    let watermark = 1699488000000;
    let conf = HawConf::default().with_watermark(watermark);
    let mut haw: Haw<U64SumAggregator> = Haw::new(watermark, conf);

    let hours_as_secs = 3600;
    let hours = hours_as_secs * 3;
    let deltas: Vec<Option<u64>> = (0..hours).map(|_| Some(1)).collect();
    // advance wheel by 3 hours
    haw.delta_advance(deltas);

    let start = utc(2023, 11, 09, 00, 00, 00);
    let end = utc(2023, 11, 09, 01, 00, 00);

    assert_eq!(haw.combine_range((start, end).into()), Some(3600));

    let start = utc(2023, 11, 09, 00, 00, 00);
    let end = utc(2023, 11, 09, 03, 00, 00);

    assert_eq!(haw.combine_range((start, end).into()), Some(10800));
}

#[test]
fn range_query_day_test() {
    // 2023-11-09 00:00:00
    let watermark = 1699488000000;
    let conf = HawConf::default()
        .with_watermark(watermark)
        .with_retention_policy(RetentionPolicy::Keep);
    let mut haw: Haw<U64SumAggregator> = Haw::new(watermark, conf);

    let days_as_secs = 3600 * 24;
    let days = days_as_secs * 3;
    let deltas: Vec<Option<u64>> = (0..days).map(|_| Some(1)).collect();
    // advance wheel by 3 days
    haw.delta_advance(deltas);

    let start = utc(2023, 11, 09, 00, 00, 00);
    let end = utc(2023, 11, 10, 00, 00, 00);

    assert_eq!(haw.combine_range((start, end).into()), Some(3600 * 24));

    let start = utc(2023, 11, 09, 00, 00, 00);
    let end = utc(2023, 11, 12, 00, 00, 00);

    assert_eq!(haw.combine_range((start, end).into()), Some(259200));

    let start = utc(2023, 11, 09, 15, 50, 50);
    let end = utc(2023, 11, 11, 12, 30, 45);

    // the seconds wheel alone and the combined plan over several wheels agree
    assert_eq!(haw.wheel_aggregation((start, end).into()), Some(160795));
    assert_eq!(haw.combine_range((start, end).into()), Some(160795));

    let plan = haw
        .explain_combine_range(WheelRange::new(start, end))
        .unwrap();
    let combined_plan = match plan {
        ExecutionPlan::CombinedAggregation(plan) => plan,
        _ => panic!("not supposed to happen"),
    };

    let mut expected = Vec::new();

    expected.push(WheelAggregation {
        range: WheelRange {
            start: utc(2023, 11, 09, 15, 50, 50),
            end: utc(2023, 11, 09, 15, 51, 00),
        },
        plan: Aggregation::Scan(10),
    });

    expected.push(WheelAggregation {
        range: WheelRange {
            start: utc(2023, 11, 11, 12, 30, 00),
            end: utc(2023, 11, 11, 12, 30, 45),
        },
        plan: Aggregation::Scan(45),
    });

    expected.push(WheelAggregation {
        range: WheelRange {
            start: utc(2023, 11, 09, 15, 51, 00),
            end: utc(2023, 11, 09, 16, 00, 00),
        },
        plan: Aggregation::Scan(9),
    });

    expected.push(WheelAggregation {
        range: WheelRange {
            start: utc(2023, 11, 11, 12, 00, 00),
            end: utc(2023, 11, 11, 12, 30, 00),
        },
        plan: Aggregation::Scan(30),
    });

    expected.push(WheelAggregation {
        range: WheelRange {
            start: utc(2023, 11, 09, 16, 00, 00),
            end: utc(2023, 11, 10, 00, 00, 00),
        },
        plan: Aggregation::Scan(8),
    });
    expected.push(WheelAggregation {
        range: WheelRange {
            start: utc(2023, 11, 11, 00, 00, 00),
            end: utc(2023, 11, 11, 12, 00, 00),
        },
        plan: Aggregation::Scan(12),
    });
    expected.push(WheelAggregation {
        range: WheelRange {
            start: utc(2023, 11, 10, 00, 00, 00),
            end: utc(2023, 11, 11, 00, 00, 00),
        },
        plan: Aggregation::Scan(1),
    });

    assert_eq!(combined_plan.aggregations, expected);

    let start = utc(2023, 11, 09, 05, 00, 00);
    let end = utc(2023, 11, 12, 00, 00, 00);

    // answered by the landmark less the hours before the range
    let result = haw.combine_range(WheelRange::new(start, end));
    let plan = haw
        .explain_combine_range(WheelRange::new(start, end))
        .unwrap();
    assert!(matches!(plan, ExecutionPlan::InverseLandmarkAggregation(_)));
    assert_eq!(result, Some(241200));
}
