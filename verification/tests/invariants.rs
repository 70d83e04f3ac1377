use haw::aggregator::U64SumAggregator;
use haw::conf::HawConf;
use haw::conf::RetentionPolicy;
use haw::conf::TOTAL_SECS_IN_WHEEL;
use haw::datetime::DateTime;
use haw::duration::Duration;
use haw::entry::Entry;
use haw::hierarchical::Haw;
use haw::plan::ExecutionPlan;
use haw::range::WheelRange;
use haw::rw_wheel::RwWheel;
use haw::writer::WriterWheel;

type SumHaw = Haw<U64SumAggregator>;

// 2023-11-09 00:00:00 UTC, in seconds
const MIDNIGHT: i64 = 1_699_488_000;

fn at(secs: i64) -> DateTime {
    DateTime::from_unix_timestamp(secs).unwrap()
}

/// The delta of second `i`: some values, some gaps.
fn delta(i: u64) -> Option<u64> {
    if i % 7 == 3 {
        None
    } else {
        Some(i * i % 1_000 + 1)
    }
}

fn deltas(n: u64) -> Vec<Option<u64>> {
    (0..n).map(delta).collect()
}

/// The scan of ticks `from..to`, second by second.
fn scan(from: u64, to: u64) -> u64 {
    (from..to).map(|i| delta(i).unwrap_or(0)).sum()
}

fn keeping(conf: HawConf, ticks: u64) -> SumHaw {
    let watermark = MIDNIGHT as u64 * 1000;
    let conf = conf
        .with_watermark(watermark)
        .with_retention_policy(RetentionPolicy::Keep);
    let mut haw: SumHaw = Haw::new(watermark, conf);
    haw.delta_advance(deltas(ticks));
    haw
}

fn range(from: u64, to: u64) -> WheelRange {
    WheelRange::new(at(MIDNIGHT + from as i64), at(MIDNIGHT + to as i64))
}

#[test]
fn watermark_never_decreases() {
    let mut haw: SumHaw = Haw::new(5_000, HawConf::default().with_watermark(5_000));
    let mut writer = WriterWheel::new(5_000, U64SumAggregator);
    let mut last = haw.watermark();
    haw.delta_advance(vec![Some(1), None]);
    assert!(haw.watermark() >= last);
    last = haw.watermark();
    haw.advance(Duration::seconds(3), &mut writer);
    assert!(haw.watermark() >= last);
    last = haw.watermark();
    haw.advance_to(2_000, &mut writer);
    assert_eq!(haw.watermark(), last);
    haw.advance(Duration::seconds(-5), &mut writer);
    assert_eq!(haw.watermark(), last);
    haw.clear();
    assert_eq!(haw.watermark(), last);
    haw.window(Duration::seconds(4), Duration::seconds(2));
    haw.set_optimizer_hints(true);
    assert_eq!(haw.watermark(), last);
    haw.advance_to(last + 2_500, &mut writer);
    assert_eq!(haw.watermark(), last + 2_000);
    let mut other: SumHaw = Haw::new(0, HawConf::default());
    last = haw.watermark();
    haw.merge(&mut other);
    assert!(haw.watermark() >= last);
    assert!(other.watermark() >= 0);
}

#[test]
fn rotation_counts_add_up_to_the_ticks() {
    let mut haw: SumHaw = Haw::new(0, HawConf::default());
    assert_eq!(haw.current_time_in_cycle().whole_seconds(), 0);
    assert_eq!(haw.remaining_ticks(), TOTAL_SECS_IN_WHEEL);
    let mut ticks = 0u64;
    for step in [1u64, 58, 1, 1, 3_539, 1, 82_799, 1, 100_000] {
        haw.delta_advance((0..step).map(|_| Some(1)).collect());
        ticks += step;
        assert_eq!(haw.current_time_in_cycle().whole_seconds(), ticks as i64);
        assert_eq!(haw.remaining_ticks(), TOTAL_SECS_IN_WHEEL - ticks);
        let seconds = haw.seconds_unchecked().rotation_count() as u64;
        let minutes = haw.minutes().map_or(0, |w| w.rotation_count()) as u64;
        let hours = haw.hours().map_or(0, |w| w.rotation_count()) as u64;
        let days = haw.days().map_or(0, |w| w.rotation_count()) as u64;
        assert_eq!(seconds + minutes * 60 + hours * 3_600 + days * 86_400, ticks);
        assert_eq!(haw.watermark(), ticks * 1_000);
    }
    assert!(haw.weeks().is_none());
    assert!(haw.years().is_none());
}

#[test]
fn landmark_combines_the_live_slots_of_all_wheels() {
    let ticks = 3 * 3_600 + 17 * 60 + 41;
    let mut haw: SumHaw = Haw::new(0, HawConf::default());
    haw.delta_advance(deltas(ticks));
    let mut live = 0u64;
    let mut any = false;
    for wheel in [haw.seconds(), haw.minutes(), haw.hours(), haw.days()] {
        if let Some(wheel) = wheel {
            let held = wheel.retained();
            for i in held - wheel.rotation_count()..held {
                live += wheel.slot(i).unwrap();
                any = true;
            }
        }
    }
    assert!(any);
    assert_eq!(haw.landmark(), Some(live));
    assert_eq!(haw.landmark(), Some(scan(0, ticks)));
    assert_eq!(haw.landmark_and_lower(), Some(scan(0, ticks)));
    assert_eq!(haw.analyze_landmark(), (Some(scan(0, ticks)), 2));
    let fresh: SumHaw = Haw::new(0, HawConf::default());
    assert_eq!(fresh.landmark(), None);
    assert_eq!(fresh.analyze_landmark(), (None, 0));
}

#[test]
fn range_queries_agree_with_the_scan_of_kept_history() {
    let ticks = 2 * 86_400 + 5 * 3_600 + 42 * 60 + 17;
    let haw = keeping(HawConf::default(), ticks);
    let ranges: Vec<(u64, u64)> = vec![
        (0, ticks),
        (0, 1),
        (ticks - 1, ticks),
        (10, 50),
        (59, 61),
        (60, 3_540),
        (1_830, 6_315),
        (3_600, 7_200),
        (0, 86_400),
        (86_400, 2 * 86_400),
        (15 * 3_600 + 50 * 60 + 50, 86_400 + 12 * 3_600 + 30 * 60 + 45),
        (5 * 3_600, 2 * 86_400),
        (30, ticks - 30),
        (86_399, 86_401),
    ];
    for (from, to) in ranges {
        let expected = Some(scan(from, to));
        assert_eq!(haw.combine_range(range(from, to)), expected, "{}..{}", from, to);
        assert_eq!(
            haw.wheel_aggregation(range(from, to)),
            expected,
            "{}..{} by one wheel",
            from,
            to
        );
        assert_eq!(haw.combine_range_and_lower(range(from, to)), expected);
    }
}

#[test]
fn inverse_landmark_and_combined_plans_agree() {
    let ticks = 2 * 3_600;
    let mut haw = keeping(HawConf::default(), ticks);
    // 00:20:30 to 01:39:30
    let asked = range(20 * 60 + 30, 3_600 + 39 * 60 + 30);
    let expected = Some(scan(20 * 60 + 30, 3_600 + 39 * 60 + 30));

    haw.set_optimizer_hints(false);
    let plan = haw.explain_combine_range(asked).unwrap();
    assert!(matches!(plan, ExecutionPlan::CombinedAggregation(_)));
    assert_eq!(plan.cost(), 30 + 39 + 39 + 30);
    assert_eq!(haw.analyze_combine_range(asked), (expected, 138));

    // with hints the scan has to cost more than the threshold to be split
    haw.set_optimizer_hints(true);
    let plan = haw.explain_combine_range(asked).unwrap();
    assert!(matches!(plan, ExecutionPlan::InverseLandmarkAggregation(_)));
    assert_eq!(plan.cost(), 5 + 1_230 + 1_230);
    assert_eq!(haw.combine_range(asked), expected);
    // executed, the landmark is charged the combines that it took: none here
    assert_eq!(haw.analyze_combine_range(asked), (expected, 1_230 + 1_230));
}

#[test]
fn layouts_answer_alike() {
    let ticks = 86_400 + 3 * 3_600 + 59;
    let array = keeping(HawConf::default(), ticks);
    let prefix = keeping(HawConf::default().with_prefix_sum(), ticks);
    let mut converted = keeping(HawConf::default(), ticks);
    converted.convert_all_to_prefix();
    let mut back = keeping(HawConf::default().with_prefix_sum(), ticks);
    back.convert_all_to_array();
    let ranges: Vec<(u64, u64)> = vec![
        (0, ticks),
        (7, 8),
        (100, 4_000),
        (3_600, 10_800),
        (0, 86_400),
        (86_400, 86_400 + 3_600),
        (61, 86_400 + 3 * 3_600 + 1),
    ];
    for (from, to) in ranges {
        let expected = array.combine_range(range(from, to));
        assert_eq!(expected, Some(scan(from, to)));
        assert_eq!(prefix.combine_range(range(from, to)), expected);
        assert_eq!(converted.combine_range(range(from, to)), expected);
        assert_eq!(back.combine_range(range(from, to)), expected);
        assert_eq!(
            prefix.wheel_aggregation(range(from, to)),
            array.wheel_aggregation(range(from, to))
        );
    }
    assert_eq!(prefix.landmark(), array.landmark());
    assert_eq!(converted.landmark(), array.landmark());
    // a prefix range costs one combine
    assert_eq!(prefix.analyze_combine_range(range(100, 4_000)).1, 1);
    assert_eq!(converted.analyze_combine_range(range(100, 4_000)).1, 1);
    assert!(back.analyze_combine_range(range(100, 4_000)).1 > 1);
}

#[test]
fn advancing_in_two_steps_is_advancing_once() {
    fn fed(deltas: bool) -> RwWheel<U64SumAggregator> {
        let mut conf = HawConf::default();
        if deltas {
            conf = conf.with_deltas();
        }
        let mut wheel = RwWheel::with_conf(0, conf, U64SumAggregator);
        for second in 0..40u64 {
            if second % 3 != 1 {
                wheel.insert(Entry::new(second + 1, second * 1_000 + 7)).unwrap();
            }
        }
        wheel
    }
    for deltas in [false, true] {
        let mut twice = fed(deltas);
        let mut once = fed(deltas);
        let mut windows = twice.advance(Duration::seconds(13));
        windows.extend(twice.advance(Duration::seconds(22)));
        assert_eq!(windows, once.advance(Duration::seconds(35)));
        assert_eq!(twice.watermark(), once.watermark());
        assert_eq!(twice.watermark(), 35_000);
        assert_eq!(twice.read().landmark(), once.read().landmark());
        for seconds in 1..=35 {
            assert_eq!(
                twice.read().interval(Duration::seconds(seconds)),
                once.read().interval(Duration::seconds(seconds))
            );
        }
        assert_eq!(
            twice.read().delta_state().deltas,
            once.read().delta_state().deltas
        );
        assert_eq!(twice.read().delta_state().deltas.len(), if deltas { 35 } else { 0 });
        // what was written further ahead is still to come on both
        assert_eq!(
            twice.advance(Duration::seconds(5)),
            once.advance(Duration::seconds(5))
        );
        assert_eq!(twice.read().landmark(), once.read().landmark());
    }
}

#[test]
fn delta_advancing_in_two_runs_is_delta_advancing_once() {
    let mut twice: SumHaw = Haw::new(0, HawConf::default());
    let mut once: SumHaw = Haw::new(0, HawConf::default());
    twice.delta_advance(vec![Some(3)]);
    twice.delta_advance(vec![Some(4)]);
    once.delta_advance(vec![Some(3), Some(4)]);
    assert_eq!(twice.watermark(), once.watermark());
    assert_eq!(twice.landmark(), Some(7));
    assert_eq!(once.landmark(), Some(7));
    assert_eq!(twice.interval(Duration::seconds(1)), Some(4));
    assert_eq!(once.interval(Duration::seconds(1)), Some(4));

    let all = deltas(4_000);
    let mut twice: SumHaw = Haw::new(0, HawConf::default());
    let mut once: SumHaw = Haw::new(0, HawConf::default());
    twice.delta_advance(all[..1_234].to_vec());
    twice.delta_advance(all[1_234..].to_vec());
    once.delta_advance(all);
    assert_eq!(twice.watermark(), once.watermark());
    assert_eq!(twice.len(), once.len());
    assert_eq!(twice.landmark(), once.landmark());
    for wheel in 0..2 {
        let (a, b) = if wheel == 0 {
            (twice.seconds_unchecked(), once.seconds_unchecked())
        } else {
            (twice.minutes_unchecked(), once.minutes_unchecked())
        };
        assert_eq!(a.retained(), b.retained());
        assert_eq!(a.rotation_count(), b.rotation_count());
        assert_eq!(a.total(), b.total());
        for i in 0..a.retained() {
            assert_eq!(a.slot(i), b.slot(i));
        }
    }
}

#[test]
fn range_from_the_start_of_the_cycle_is_the_landmark() {
    for ticks in [1u64, 59, 60, 3_601, 90_000] {
        let watermark = MIDNIGHT as u64 * 1000;
        let mut haw: SumHaw = Haw::new(watermark, HawConf::default().with_watermark(watermark));
        haw.delta_advance(deltas(ticks));
        let cycle = haw.current_time_in_cycle().whole_seconds();
        let now = haw.now();
        let start = now.checked_add_seconds(-cycle).unwrap();
        assert_eq!(start.unix_timestamp(), MIDNIGHT);
        let whole = WheelRange::new(start, now);
        assert_eq!(haw.combine_range(whole), haw.landmark());
        assert_eq!(haw.combine_range(whole), Some(scan(0, ticks)));
        assert_eq!(
            haw.explain_combine_range(whole),
            Some(ExecutionPlan::LandmarkAggregation)
        );
        assert_eq!(haw.analyze_combine_range(whole), haw.analyze_landmark());
    }
}

#[test]
fn dropped_slots_are_not_answered() {
    // the seconds wheel holds the last minute only
    let watermark = MIDNIGHT as u64 * 1000;
    let mut haw: SumHaw = Haw::new(watermark, HawConf::default().with_watermark(watermark));
    haw.delta_advance(deltas(200));
    assert_eq!(haw.wheel_aggregation(range(140, 200)), Some(scan(140, 200)));
    assert_eq!(haw.wheel_aggregation(range(139, 200)), None);
    assert_eq!(haw.wheel_aggregation(range(60, 180)), Some(scan(60, 180)));
    // not yet closed, or not there at all
    assert_eq!(haw.wheel_aggregation(range(180, 240)), None);
    assert_eq!(haw.wheel_aggregation(range(0, 3_600)), None);
    assert_eq!(haw.wheel_aggregation(range(200, 200)), None);
    assert_eq!(haw.wheel_aggregation(range(200, 100)), None);
}
