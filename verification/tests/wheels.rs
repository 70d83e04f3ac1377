use haw::aggregator::combine_or_insert;
use haw::aggregator::Aggregator;
use haw::aggregator::U64SumAggregator;
use haw::conf::DataLayout;
use haw::conf::RetentionPolicy;
use haw::conf::WheelConf;
use haw::datetime::DateTime;
use haw::granularity::Granularity;
use haw::maybe::MaybeWheel;
use haw::wheel::AggregationWheel;

type Wheel = AggregationWheel<U64SumAggregator>;

fn at(secs: i64) -> DateTime {
    DateTime::from_unix_timestamp(secs).unwrap()
}

/// A seconds wheel of four slots that has been ticked with `values`.
fn ticked(conf: WheelConf, values: &[u64]) -> Wheel {
    let mut wheel = Wheel::new(conf);
    for value in values {
        wheel.insert_head(*value);
        wheel.tick();
    }
    wheel
}

#[test]
fn sum_aggregator_is_a_group_modulo_two_to_the_64() {
    assert_eq!(U64SumAggregator::identity(), 0);
    assert_eq!(U64SumAggregator::combine(3, 4), 7);
    assert_eq!(U64SumAggregator::combine(u64::MAX, 2), 1);
    assert_eq!(U64SumAggregator::combine_inverse(7, 4), Some(3));
    assert_eq!(U64SumAggregator::combine_inverse(1, 2), Some(u64::MAX));
    assert!(U64SumAggregator::invertible());
    assert!(U64SumAggregator::simd_support());
    assert_eq!(U64SumAggregator::lower(9), 9);
    assert_eq!(U64SumAggregator::freeze(9), 9);
    let aggregator = U64SumAggregator;
    assert_eq!(aggregator.lift(5), 5);
    let mut acc = 5;
    aggregator.combine_mutable(&mut acc, 6);
    assert_eq!(acc, 11);
    let mut dest = None;
    combine_or_insert::<U64SumAggregator>(&mut dest, 4);
    assert_eq!(dest, Some(4));
    combine_or_insert::<U64SumAggregator>(&mut dest, 5);
    assert_eq!(dest, Some(9));
}

#[test]
fn wheel_rolls_up_at_the_end_of_a_rotation() {
    let mut wheel = Wheel::new(WheelConf::new(1_000, 4));
    assert!(wheel.is_empty());
    assert_eq!(wheel.total(), None);
    let mut rolled = Vec::new();
    for value in 1..=9u64 {
        wheel.insert_head(value);
        assert_eq!(wheel.watermark(), (value - 1) * 1_000);
        rolled.push(wheel.tick());
    }
    assert_eq!(
        rolled,
        vec![
            None,
            None,
            None,
            Some(1 + 2 + 3 + 4),
            None,
            None,
            None,
            Some(5 + 6 + 7 + 8),
            None
        ]
    );
    assert_eq!(wheel.rotation_count(), 1);
    assert_eq!(wheel.total(), Some(9));
    assert_eq!(wheel.watermark(), 9_000);
    assert_eq!(wheel.len(), 4);
    assert!(wheel.is_full());
    assert_eq!(wheel.capacity(), 4);
}

#[test]
fn wheel_open_slot_combines_or_is_written_over() {
    let mut wheel = Wheel::new(WheelConf::new(1_000, 4));
    wheel.insert_head(1);
    wheel.insert_head(2);
    assert_eq!(wheel.total(), Some(3));
    wheel.insert_slot(10);
    assert_eq!(wheel.total(), Some(10));
    assert_eq!(wheel.tick(), None);
    assert_eq!(wheel.slot(0), Some(10));
    assert_eq!(wheel.slot(1), None);
    // a tick with nothing written closes the identity
    assert_eq!(wheel.tick(), None);
    assert_eq!(wheel.slot(1), Some(0));
    assert_eq!(wheel.total(), Some(10));
}

#[test]
fn wheel_drops_or_keeps_what_leaves_the_ring() {
    let values: Vec<u64> = (1..=6).collect();
    let dropping = ticked(WheelConf::new(1_000, 4), &values);
    assert_eq!(dropping.retained(), 4);
    assert_eq!(dropping.len(), 4);
    assert_eq!(dropping.slot(0), Some(3));
    assert_eq!(dropping.slot(3), Some(6));
    let keeping = ticked(
        WheelConf::new(1_000, 4).with_retention_policy(RetentionPolicy::Keep),
        &values,
    );
    assert_eq!(keeping.retained(), 6);
    assert_eq!(keeping.len(), 4);
    assert_eq!(keeping.slot(0), Some(1));
    assert_eq!(keeping.slot(5), Some(6));
    assert_eq!(keeping.total(), dropping.total());
    assert_eq!(keeping.rotation_count(), 2);
}

#[test]
fn wheel_aggregate_answers_only_what_it_holds() {
    let values: Vec<u64> = (1..=6).collect();
    let wheel = ticked(WheelConf::new(1_000, 4), &values);
    // the wheel stands at second 6 and holds seconds 2 to 5 (values 3 to 6)
    assert_eq!(wheel.aggregate(at(2), 4, Granularity::Second), Some(18));
    assert_eq!(wheel.aggregate(at(3), 2, Granularity::Second), Some(4 + 5));
    assert_eq!(wheel.aggregate(at(5), 1, Granularity::Second), Some(6));
    // empty, before the oldest slot, past the watermark, of another granularity
    assert_eq!(wheel.aggregate(at(3), 0, Granularity::Second), None);
    assert_eq!(wheel.aggregate(at(1), 2, Granularity::Second), None);
    assert_eq!(wheel.aggregate(at(5), 2, Granularity::Second), None);
    assert_eq!(wheel.aggregate(at(7), 1, Granularity::Second), None);
    assert_eq!(wheel.aggregate(at(0), 1, Granularity::Minute), None);
    assert_eq!(wheel.aggregate(at(-3), 2, Granularity::Second), None);
}

#[test]
fn wheel_aggregate_needs_aligned_starts() {
    let conf = WheelConf::new(60_000, 60).with_watermark(30_000);
    let mut wheel = Wheel::new(conf);
    wheel.insert_slot(7);
    wheel.tick();
    wheel.insert_slot(8);
    wheel.tick();
    // the slots span 30..90 and 90..150
    assert_eq!(wheel.aggregate(at(30), 2, Granularity::Minute), Some(15));
    assert_eq!(wheel.aggregate(at(90), 1, Granularity::Minute), Some(8));
    assert_eq!(wheel.aggregate(at(60), 1, Granularity::Minute), None);
}

#[test]
fn wheel_layouts_answer_alike() {
    let values: Vec<u64> = vec![5, 0, 7, 11, 13, 17, 19];
    let conf = WheelConf::new(1_000, 8);
    let array = ticked(conf, &values);
    let prefix = ticked(conf.with_data_layout(DataLayout::Prefix), &values);
    let mut converted = ticked(conf, &values);
    converted.to_prefix_array();
    assert_eq!(converted.conf().data_layout, DataLayout::Prefix);
    let mut back = ticked(conf.with_data_layout(DataLayout::Prefix), &values);
    back.to_array();
    assert_eq!(back.conf().data_layout, DataLayout::Array);
    for start in 0..7i64 {
        for n in 1..=(7 - start as usize) {
            let expected: u64 = values[start as usize..start as usize + n].iter().sum();
            assert_eq!(array.aggregate(at(start), n, Granularity::Second), Some(expected));
            assert_eq!(prefix.aggregate(at(start), n, Granularity::Second), Some(expected));
            assert_eq!(
                converted.aggregate(at(start), n, Granularity::Second),
                Some(expected)
            );
            assert_eq!(back.aggregate(at(start), n, Granularity::Second), Some(expected));
        }
    }
    assert_eq!(array.total(), prefix.total());
    assert_eq!(array.total(), converted.total());
}

#[test]
fn wheel_prefix_layout_survives_eviction() {
    let values: Vec<u64> = (1..=10).collect();
    let wheel = ticked(
        WheelConf::new(1_000, 4).with_data_layout(DataLayout::Prefix),
        &values,
    );
    assert_eq!(wheel.retained(), 4);
    assert_eq!(wheel.aggregate(at(6), 4, Granularity::Second), Some(7 + 8 + 9 + 10));
    assert_eq!(wheel.aggregate(at(7), 2, Granularity::Second), Some(8 + 9));
    assert_eq!(wheel.aggregate(at(5), 2, Granularity::Second), None);
}

#[test]
fn wheel_merge_combines_from_the_newest() {
    let mut wheel = ticked(WheelConf::new(1_000, 8), &[1, 2, 3, 4, 5]);
    let other = ticked(WheelConf::new(1_000, 8), &[10, 20, 30]);
    wheel.merge(&other);
    assert_eq!(wheel.retained(), 5);
    assert_eq!(wheel.slot(0), Some(1));
    assert_eq!(wheel.slot(1), Some(2));
    assert_eq!(wheel.slot(2), Some(13));
    assert_eq!(wheel.slot(3), Some(24));
    assert_eq!(wheel.slot(4), Some(35));
    assert_eq!(wheel.total(), Some(1 + 2 + 13 + 24 + 35));
    assert_eq!(wheel.rotation_count(), 5);
    assert_eq!(wheel.watermark(), 5_000);

    let mut short = ticked(WheelConf::new(1_000, 8), &[1, 2]);
    let long = ticked(WheelConf::new(1_000, 8), &[10, 20, 30]);
    short.merge(&long);
    assert_eq!(short.retained(), 2);
    assert_eq!(short.slot(0), Some(21));
    assert_eq!(short.slot(1), Some(32));
}

#[test]
fn wheel_clear_starts_anew() {
    let mut wheel = ticked(WheelConf::new(1_000, 4), &[1, 2, 3]);
    wheel.clear(9_000);
    assert!(wheel.is_empty());
    assert_eq!(wheel.total(), None);
    assert_eq!(wheel.rotation_count(), 0);
    assert_eq!(wheel.watermark(), 9_000);
    assert_eq!(wheel.conf().capacity, 4);
}

#[test]
fn wheel_size_counts_the_slots() {
    let empty = Wheel::new(WheelConf::new(1_000, 8));
    let filled = ticked(WheelConf::new(1_000, 8), &[1, 2, 3]);
    let prefix = ticked(
        WheelConf::new(1_000, 8).with_data_layout(DataLayout::Prefix),
        &[1, 2, 3],
    );
    assert_eq!(empty.size_bytes(), std::mem::size_of::<Wheel>());
    assert_eq!(filled.size_bytes(), empty.size_bytes() + 3 * 8);
    assert_eq!(prefix.size_bytes(), empty.size_bytes() + 6 * 8);
}

#[test]
fn wheel_conf_check() {
    assert!(Wheel::check_conf(&WheelConf::new(1_000, 1)));
    assert!(!Wheel::check_conf(&WheelConf::new(1_000, 0)));
    assert!(Wheel::check_conf(
        &WheelConf::new(1_000, 4).with_data_layout(DataLayout::Prefix)
    ));
}

#[test]
fn maybe_wheel_allocates_when_written_to() {
    let mut wheel: MaybeWheel<U64SumAggregator> = MaybeWheel::new(WheelConf::new(1_000, 4));
    assert!(!wheel.is_allocated());
    assert!(wheel.as_ref().is_none());
    assert_eq!(wheel.len(), 0);
    assert_eq!(wheel.rotation_count(), 0);
    assert_eq!(wheel.total(), None);
    assert_eq!(wheel.size_bytes(), 0);
    assert_eq!(wheel.aggregate(at(0), 1, Granularity::Second), None);
    assert!(!wheel.is_prefix());
    wheel.insert_head(4);
    assert!(wheel.is_allocated());
    assert_eq!(wheel.total(), Some(4));
    assert_eq!(wheel.tick(), None);
    wheel.insert_slot(5);
    assert_eq!(wheel.tick(), None);
    assert_eq!(wheel.len(), 2);
    assert_eq!(wheel.rotation_count(), 2);
    assert_eq!(wheel.aggregate(at(0), 2, Granularity::Second), Some(9));
    wheel.to_prefix_array();
    assert!(wheel.is_prefix());
    assert_eq!(wheel.aggregate(at(1), 1, Granularity::Second), Some(5));
    wheel.to_array();
    assert!(!wheel.is_prefix());
    wheel.clear(7_000);
    assert!(!wheel.is_allocated());
    assert_eq!(wheel.conf().watermark, 7_000);
}
