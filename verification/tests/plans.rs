use haw::aggregator::Aggregator;
use haw::aggregator::U64MaxAggregator;
use haw::aggregator::U64SumAggregator;
use haw::conf::DataLayout;
use haw::conf::HawConf;
use haw::conf::Heuristics;
use haw::conf::Optimizer;
use haw::conf::RetentionPolicy;
use haw::conf::WheelConf;
use haw::conf::DEFAULT_SIMD_THRESHOLD;
use haw::conf::SECONDS;
use haw::conf::SECOND_TICK_MS;
use haw::conf::YEARS;
use haw::conf::YEAR_TICK_MS;
use haw::datetime::DateTime;
use haw::delta::DeltaState;
use haw::duration::Duration;
use haw::frequency::Frequency;
use haw::frequency::WheelFrequencies;
use haw::granularity::Granularity;
use haw::hierarchical::Haw;
use haw::hierarchical::QueryError;
use haw::plan::total_cost;
use haw::plan::Aggregation;
use haw::plan::CombinedAggregation;
use haw::plan::ExecutionPlan;
use haw::plan::WheelAggregation;
use haw::range::WheelRange;
use haw::snapshot::check_compressible;
use haw::snapshot::compress_snapshot;
use haw::snapshot::declared_size;

type SumHaw = Haw<U64SumAggregator>;

fn at(secs: i64) -> DateTime {
    DateTime::from_unix_timestamp(secs).unwrap()
}

fn scan_of(slots: usize) -> WheelAggregation {
    WheelAggregation::new(WheelRange::new(at(0), at(slots as i64)), Aggregation::Scan(slots))
}

#[test]
fn plan_costs() {
    assert_eq!(Aggregation::Scan(17).cost(), 17);
    assert_eq!(Aggregation::Prefix.cost(), 1);
    assert!(!scan_of(3).is_prefix());
    assert_eq!(scan_of(3).cost(), 3);
    let prefix = WheelAggregation::new(WheelRange::new(at(0), at(60)), Aggregation::Prefix);
    assert!(prefix.is_prefix());
    assert_eq!(total_cost(&vec![]), 0);
    assert_eq!(total_cost(&vec![scan_of(3), prefix, scan_of(10)]), 14);
    assert_eq!(total_cost(&vec![scan_of(usize::MAX), scan_of(10)]), usize::MAX);
    let combined = CombinedAggregation::from(vec![scan_of(3), scan_of(4)]);
    assert_eq!(combined.cost(), 7);
    assert_eq!(ExecutionPlan::CombinedAggregation(combined).cost(), 7);
    assert_eq!(ExecutionPlan::LandmarkAggregation.cost(), 5);
    assert_eq!(ExecutionPlan::WheelAggregation(scan_of(9)).cost(), 9);
    assert_eq!(
        ExecutionPlan::InverseLandmarkAggregation(vec![scan_of(9), scan_of(2)]).cost(),
        16
    );
    assert_eq!(
        ExecutionPlan::InverseLandmarkAggregation(vec![scan_of(usize::MAX)]).cost(),
        usize::MAX
    );
}

#[test]
fn plan_kinds_and_preference() {
    assert!(ExecutionPlan::LandmarkAggregation.is_prefix_or_landmark());
    assert!(ExecutionPlan::WheelAggregation(WheelAggregation::new(
        WheelRange::new(at(0), at(60)),
        Aggregation::Prefix
    ))
    .is_prefix_or_landmark());
    assert!(!ExecutionPlan::WheelAggregation(scan_of(1)).is_prefix_or_landmark());
    assert!(!ExecutionPlan::InverseLandmarkAggregation(vec![]).is_prefix_or_landmark());
    let cheap = ExecutionPlan::WheelAggregation(scan_of(3));
    let dear = ExecutionPlan::WheelAggregation(scan_of(30));
    assert_eq!(cheap.clone().cheaper(dear.clone()), cheap);
    assert_eq!(dear.clone().cheaper(cheap.clone()), cheap);
    // at the same cost the first one stands
    let landmark = ExecutionPlan::LandmarkAggregation;
    let five = ExecutionPlan::WheelAggregation(scan_of(5));
    assert_eq!(landmark.clone().cheaper(five.clone()), landmark);
    assert_eq!(five.clone().cheaper(landmark), five);
}

#[test]
fn combined_plan_orders_by_granularity() {
    let haw: SumHaw = Haw::new(0, HawConf::default());
    let ranges = vec![
        WheelRange::new(at(3_600), at(7_200)), // an hour
        WheelRange::new(at(10), at(60)),       // seconds
        WheelRange::new(at(0), at(86_400)),    // a day
        WheelRange::new(at(60), at(120)),      // a minute
        WheelRange::new(at(120), at(125)),     // seconds
    ];
    let combined = haw.combined_aggregation_plan(ranges.clone());
    let order: Vec<WheelRange> = combined.aggregations.iter().map(|a| a.range).collect();
    assert_eq!(order, vec![ranges[1], ranges[4], ranges[3], ranges[0], ranges[2]]);
    // no wheel is allocated: every sub-range is planned at no cost
    assert_eq!(combined.cost(), 0);
}

#[test]
fn an_absent_wheel_answers_nothing_at_no_cost() {
    let mut haw: SumHaw = Haw::new(0, HawConf::default());
    assert!(haw.is_empty());
    assert!(!haw.is_full());
    assert_eq!(haw.len(), 0);
    assert_eq!(haw.size_bytes(), 0);
    assert!(haw.seconds().is_none());
    haw.delta_advance(vec![Some(1); 30]);
    assert_eq!(haw.len(), 30);
    assert!(haw.seconds().is_some());
    assert!(haw.minutes().is_none());
    // minutes are asked of a wheel that is not there yet
    let asked = WheelRange::new(at(0), at(60));
    assert_eq!(haw.wheel_aggregation(asked), None);
    assert_eq!(
        haw.explain_combine_range(WheelRange::new(at(60), at(120))),
        Some(ExecutionPlan::WheelAggregation(WheelAggregation::new(
            WheelRange::new(at(60), at(120)),
            Aggregation::Scan(0)
        )))
    );
    assert_eq!(haw.combine_range(WheelRange::new(at(60), at(120))), None);
    assert!(haw.size_bytes() > 30 * 8);
}

#[test]
fn interval_edges() {
    let mut haw: SumHaw = Haw::new(0, HawConf::default());
    haw.delta_advance(vec![Some(2); 10]);
    assert_eq!(haw.interval(Duration::seconds(0)), None);
    assert_eq!(haw.interval(Duration::milliseconds(999)), None);
    assert_eq!(haw.interval(Duration::seconds(-3)), None);
    assert_eq!(haw.interval(Duration::milliseconds(1_999)), Some(2));
    assert_eq!(haw.interval_with_stats(Duration::seconds(3)), (Some(6), 3));
    assert_eq!(haw.interval_and_lower(Duration::seconds(10)), Some(20));
    // reaching back before the first tick
    assert_eq!(haw.interval(Duration::seconds(11)), Some(20));
    assert_eq!(haw.interval(Duration::seconds(i64::MAX)), None);
    assert_eq!(haw.now().unix_timestamp(), 10);
}

#[test]
fn invalid_ranges_are_turned_down() {
    let mut haw: SumHaw = Haw::new(0, HawConf::default());
    haw.delta_advance(vec![Some(2); 10]);
    assert_eq!(
        haw.try_combine_range(WheelRange::new(at(5), at(5))),
        Err(QueryError::Invalid)
    );
    assert_eq!(
        haw.try_combine_range(WheelRange::new(at(6), at(5))),
        Err(QueryError::Invalid)
    );
    assert_eq!(
        haw.try_combine_range(WheelRange::new(at(5), at(7))),
        Ok(Some(4))
    );
    assert_eq!(
        haw.try_combine_range(WheelRange::new(at(50), at(70))),
        Ok(None)
    );
    assert_eq!(QueryError::Invalid.message(), "Invalid Date Range");
}

#[test]
fn conf_builders() {
    let conf = HawConf::default();
    assert_eq!(conf.watermark, 0);
    assert_eq!(conf.seconds.capacity, SECONDS);
    assert_eq!(conf.seconds.tick_size_ms, SECOND_TICK_MS);
    assert_eq!(conf.years.capacity, YEARS);
    assert_eq!(conf.years.tick_size_ms, YEAR_TICK_MS);
    assert_eq!(conf.days.data_layout, DataLayout::Array);
    assert_eq!(conf.days.retention, RetentionPolicy::Drop);
    assert!(!conf.generate_deltas);
    assert!(!conf.optimizer.hints());
    assert_eq!(conf.optimizer.heuristics().simd_threshold(), DEFAULT_SIMD_THRESHOLD);
    assert_eq!(DEFAULT_SIMD_THRESHOLD, 15_000);
    assert!(conf.check_wheel_shapes());
    assert!(!conf.check_uses_prefix());
    assert!(SumHaw::check_conf(&conf));

    let conf = conf
        .with_watermark(5_000)
        .with_prefix_sum()
        .with_retention_policy(RetentionPolicy::Keep)
        .with_deltas();
    assert_eq!(conf.watermark, 5_000);
    for wheel in [conf.seconds, conf.minutes, conf.hours, conf.days, conf.weeks, conf.years] {
        assert_eq!(wheel.watermark, 5_000);
        assert_eq!(wheel.data_layout, DataLayout::Prefix);
        assert_eq!(wheel.retention, RetentionPolicy::Keep);
    }
    assert!(conf.generate_deltas);
    assert!(conf.check_uses_prefix());
    assert!(SumHaw::check_conf(&conf));

    let odd = WheelConf::new(1_000, 30);
    assert!(!HawConf::default().with_seconds(odd).check_wheel_shapes());
    assert!(!HawConf::default().with_minutes(odd).check_wheel_shapes());
    assert!(!HawConf::default().with_hours(odd).check_wheel_shapes());
    assert!(!HawConf::default().with_days(odd).check_wheel_shapes());
    assert!(!HawConf::default().with_weeks(odd).check_wheel_shapes());
    assert!(!HawConf::default().with_years(odd).check_wheel_shapes());
    assert!(!SumHaw::check_conf(&HawConf::default().with_years(odd)));
    let kept = WheelConf::new(3_600_000, 24).with_retention_policy(RetentionPolicy::Keep);
    let conf = HawConf::default().with_hours(kept);
    assert!(conf.check_wheel_shapes());
    assert_eq!(conf.hours.retention, RetentionPolicy::Keep);
    assert_eq!(conf.minutes.retention, RetentionPolicy::Drop);

    let mut wheel = WheelConf::new(1_000, 60);
    wheel.set_watermark(3);
    wheel.set_data_layout(DataLayout::Prefix);
    wheel.set_retention_policy(RetentionPolicy::Keep);
    assert_eq!(wheel.watermark, 3);
    assert_eq!(wheel.data_layout, DataLayout::Prefix);
    assert_eq!(wheel.retention, RetentionPolicy::Keep);

    let mut optimizer = Optimizer::default();
    optimizer.use_hints(true);
    optimizer.set_heuristics(Heuristics::new(10));
    assert!(optimizer.hints());
    assert_eq!(optimizer.heuristics().simd_threshold(), 10);
    assert_eq!(Heuristics::default().simd_threshold(), 15_000);
}

#[test]
fn hints_hold_back_the_combined_plan_below_the_threshold() {
    let watermark = 1_699_488_000_000u64;
    let conf = HawConf::default()
        .with_watermark(watermark)
        .with_retention_policy(RetentionPolicy::Keep);
    let mut haw: SumHaw = Haw::new(watermark, conf);
    haw.delta_advance(vec![Some(1); 12 * 3_600]);
    let base = 1_699_488_000i64;
    haw.set_optimizer_hints(true);
    // 03:00:30 to 09:00:30 while the watermark is at 12:00:00: the scan
    // costs 21600, more than the threshold, so the range is split
    let asked = WheelRange::new(at(base + 3 * 3_600 + 30), at(base + 9 * 3_600 + 30));
    let plan = haw.explain_combine_range(asked).unwrap();
    assert!(matches!(plan, ExecutionPlan::CombinedAggregation(_)));
    assert_eq!(plan.cost(), 30 + 59 + 5 + 30);
    assert_eq!(haw.combine_range(asked), Some(21_600));
    // 02:00:30 to 10:00:30: the inverse landmark costs 14405, below the
    // threshold, so no combined plan is made
    let asked = WheelRange::new(at(base + 2 * 3_600 + 30), at(base + 10 * 3_600 + 30));
    let plan = haw.explain_combine_range(asked).unwrap();
    assert!(matches!(plan, ExecutionPlan::InverseLandmarkAggregation(_)));
    assert_eq!(plan.cost(), 5 + 7_230 + 7_170);
    assert_eq!(haw.combine_range(asked), Some(28_800));
    haw.set_optimizer_hints(false);
    let plan = haw.explain_combine_range(asked).unwrap();
    assert!(matches!(plan, ExecutionPlan::CombinedAggregation(_)));
    assert_eq!(plan.cost(), 30 + 59 + 7 + 30);
    assert_eq!(haw.combine_range(asked), Some(28_800));
}

#[test]
fn merge_brings_the_lagging_one_up_and_combines_slots() {
    let mut left: SumHaw = Haw::new(0, HawConf::default());
    let mut right: SumHaw = Haw::new(0, HawConf::default());
    left.delta_advance(vec![Some(1), Some(2), Some(3)]);
    right.delta_advance(vec![Some(10), Some(20), Some(30)]);
    left.merge(&mut right);
    assert_eq!(left.watermark(), 3_000);
    assert_eq!(right.watermark(), 3_000);
    assert_eq!(left.landmark(), Some(66));
    assert_eq!(left.interval(Duration::seconds(1)), Some(33));
    assert_eq!(left.interval(Duration::seconds(2)), Some(55));
    assert_eq!(right.landmark(), Some(60));

    let mut ahead: SumHaw = Haw::new(0, HawConf::default());
    let mut behind: SumHaw = Haw::new(0, HawConf::default());
    ahead.delta_advance(vec![Some(1), Some(2), Some(3)]);
    behind.delta_advance(vec![Some(10)]);
    ahead.merge(&mut behind);
    assert_eq!(behind.watermark(), 3_000);
    assert_eq!(behind.landmark(), Some(10));
    assert_eq!(ahead.landmark(), Some(16));
    assert_eq!(ahead.interval(Duration::seconds(2)), Some(5));

    let mut ahead: SumHaw = Haw::new(0, HawConf::default());
    let mut behind: SumHaw = Haw::new(0, HawConf::default());
    ahead.delta_advance(vec![Some(1), Some(2), Some(3)]);
    behind.delta_advance(vec![Some(10)]);
    behind.merge(&mut ahead);
    assert_eq!(behind.watermark(), 3_000);
    assert_eq!(ahead.watermark(), 3_000);
    assert_eq!(behind.landmark(), Some(16));
    assert_eq!(behind.interval(Duration::seconds(3)), Some(16));
}

#[test]
fn delta_log() {
    let mut haw: SumHaw = Haw::new(7_000, HawConf::default().with_deltas());
    assert_eq!(haw.delta_state().oldest_ts, 7_000);
    assert!(haw.delta_state().deltas.is_empty());
    haw.delta_advance(vec![Some(1), None]);
    haw.delta_advance(vec![Some(5)]);
    assert_eq!(haw.delta_state().deltas, vec![Some(1), None, Some(5)]);
    assert_eq!(haw.delta_state().oldest_ts, 7_000);
    // without the switch nothing is logged
    let mut silent: SumHaw = Haw::new(7_000, HawConf::default());
    silent.delta_advance(vec![Some(1), None]);
    assert!(silent.delta_state().deltas.is_empty());
    let mut state = DeltaState::new(3, vec![Some(1u64)]);
    state.push(None);
    state.push(Some(4));
    assert_eq!(state.deltas, vec![Some(1), None, Some(4)]);
    let copy = state.snapshot();
    assert_eq!(copy.oldest_ts, 3);
    assert_eq!(copy.deltas, state.deltas);
}

#[test]
fn access_statistics() {
    let mut frequency = Frequency::new();
    frequency.record(10);
    frequency.record(5);
    assert_eq!(frequency.sum(), 15);
    assert_eq!(frequency.count(), 2);
    assert_eq!(frequency.avg(), 7);
    frequency.record(u64::MAX);
    assert_eq!(frequency.sum(), u64::MAX);
    assert_eq!(frequency.count(), 3);

    let mut frequencies = WheelFrequencies::new();
    frequencies.add(Granularity::Hour, 4);
    assert_eq!(frequencies.get(Granularity::Hour), Frequency { sum: 4, count: 1 });
    assert_eq!(frequencies.get(Granularity::Day), Frequency { sum: 0, count: 0 });

    let mut haw: SumHaw = Haw::new(0, HawConf::default());
    haw.record_access(WheelRange::new(at(10), at(50)));
    haw.record_access(WheelRange::new(at(0), at(180)));
    haw.record_access(WheelRange::new(at(50), at(10)));
    let recorded = haw.frequencies();
    assert_eq!(recorded.get(Granularity::Second), Frequency { sum: 40, count: 2 });
    assert_eq!(recorded.get(Granularity::Minute), Frequency { sum: 6, count: 2 });
    assert_eq!(recorded.get(Granularity::Hour), Frequency { sum: 0, count: 0 });
}

#[test]
fn snapshot_blob_declares_its_size() {
    let bytes: Vec<u8> = (0..1_000u32).map(|i| (i % 7) as u8).collect();
    assert!(check_compressible(bytes.len()));
    let blob = compress_snapshot(&bytes);
    assert_ne!(blob, bytes);
    assert!(blob.len() < bytes.len());
    assert_eq!(declared_size(&blob), Some(1_000));
    assert_eq!(&blob[..4], &[0xe8, 0x03, 0, 0]);
    assert_eq!(lz4_flex::decompress_size_prepended(&blob).unwrap(), bytes);
    assert_eq!(declared_size(&compress_snapshot(&vec![])), Some(0));
    assert_eq!(declared_size(&vec![1, 2, 3]), None);
    assert_eq!(declared_size(&vec![1, 2, 3, 4, 9]), Some(0x0403_0201));
    assert!(!check_compressible(usize::MAX));
}

#[test]
fn a_monoid_without_inverse_gets_no_prefix_sums_and_no_inverse_landmark() {
    assert_eq!(U64MaxAggregator::combine(3, 9), 9);
    assert_eq!(U64MaxAggregator::combine(9, 3), 9);
    assert_eq!(U64MaxAggregator::combine_inverse(9, 3), None);
    assert_eq!(U64MaxAggregator::identity(), 0);
    assert!(!U64MaxAggregator::invertible());
    assert!(Haw::<U64MaxAggregator>::check_conf(&HawConf::default()));
    assert!(!Haw::<U64MaxAggregator>::check_conf(
        &HawConf::default().with_prefix_sum()
    ));

    let watermark = 1_699_488_000_000u64;
    let conf = HawConf::default()
        .with_watermark(watermark)
        .with_retention_policy(RetentionPolicy::Keep);
    let mut haw: Haw<U64MaxAggregator> = Haw::new(watermark, conf);
    let deltas: Vec<Option<u64>> = (0..7_200u64).map(|i| Some(i % 1_000)).collect();
    haw.delta_advance(deltas);
    let base = 1_699_488_000i64;
    // 00:20:30 to 01:39:30: gaps before and after, but nothing to take them out with
    let asked = WheelRange::new(at(base + 1_230), at(base + 5_970));
    let plan = haw.explain_combine_range(asked).unwrap();
    assert!(matches!(plan, ExecutionPlan::CombinedAggregation(_)));
    assert_eq!(haw.combine_range(asked), Some(999));
    assert_eq!(haw.wheel_aggregation(asked), Some(999));
    // seconds 1230 to 1239 only
    let asked = WheelRange::new(at(base + 1_230), at(base + 1_240));
    assert_eq!(haw.combine_range(asked), Some(239));
    assert_eq!(haw.landmark(), Some(999));
}
