use haw::aggregator::U64SumAggregator;
use haw::datetime::DateTime;
use haw::granularity::Granularity;
use haw::hierarchical::Haw;
use haw::range::new_curr_end;
use haw::range::next_aligned_end;
use haw::range::split_wheel_ranges;
use haw::range::WheelRange;

fn at(secs: i64) -> DateTime {
    DateTime::from_unix_timestamp(secs).unwrap()
}

// 2023-11-09 00:00:00 UTC
const NOV_9: i64 = 1_699_488_000;
// 2023-10-31 00:00:00 UTC
const OCT_31: i64 = 1_698_710_400;

#[test]
fn lowest_granularity_follows_the_clock_fields() {
    let range = WheelRange::new(at(NOV_9), at(NOV_9 + 4));
    assert_eq!(range.lowest_granularity(), Granularity::Second);
    let range = WheelRange::new(at(NOV_9 + 1), at(NOV_9 + 60));
    assert_eq!(range.lowest_granularity(), Granularity::Second);
    let range = WheelRange::new(at(NOV_9), at(NOV_9 + 180));
    assert_eq!(range.lowest_granularity(), Granularity::Minute);
    let range = WheelRange::new(at(NOV_9 + 3_600), at(NOV_9 + 7_200));
    assert_eq!(range.lowest_granularity(), Granularity::Hour);
    let range = WheelRange::new(at(NOV_9), at(NOV_9 + 86_400));
    assert_eq!(range.lowest_granularity(), Granularity::Day);
}

#[test]
fn scan_estimation_counts_slots_of_the_granularity() {
    assert_eq!(WheelRange::new(at(NOV_9), at(NOV_9 + 4)).scan_estimation(), 4);
    assert_eq!(WheelRange::new(at(NOV_9), at(NOV_9 + 180)).scan_estimation(), 3);
    assert_eq!(
        WheelRange::new(at(NOV_9 + 3_600), at(NOV_9 + 10_800)).scan_estimation(),
        2
    );
    assert_eq!(
        WheelRange::new(at(NOV_9), at(NOV_9 + 3 * 86_400)).scan_estimation(),
        3
    );
    // a reversed range counts backwards
    assert_eq!(WheelRange::new(at(NOV_9 + 4), at(NOV_9)).scan_estimation(), -4);
    assert_eq!(
        WheelRange::new(at(NOV_9), at(NOV_9 + 90))
            .duration()
            .whole_seconds(),
        90
    );
}

#[test]
fn range_from_a_pair_of_dates() {
    let range: WheelRange = (at(10), at(20)).into();
    assert_eq!(range, WheelRange::new(at(10), at(20)));
    assert_eq!(range.start.unix_timestamp(), 10);
    assert_eq!(range.end.unix_timestamp(), 20);
}

#[test]
fn next_aligned_end_steps_to_the_next_boundary() {
    let far = at(NOV_9 + 40 * 86_400);
    // from a second within a minute to the next minute
    assert_eq!(
        next_aligned_end(at(NOV_9 + 50), far, 9).unix_timestamp(),
        NOV_9 + 60
    );
    // from a full minute to the next hour
    assert_eq!(
        next_aligned_end(at(NOV_9 + 51 * 60), far, 9).unix_timestamp(),
        NOV_9 + 3_600
    );
    // from a full hour to the next midnight
    assert_eq!(
        next_aligned_end(at(NOV_9 + 16 * 3_600), far, 9).unix_timestamp(),
        NOV_9 + 86_400
    );
    // from a midnight on day 9 on by 22 days
    assert_eq!(
        next_aligned_end(at(NOV_9), far, 9).unix_timestamp(),
        NOV_9 + 22 * 86_400
    );
    // from a midnight on day 31 on by one day
    assert_eq!(
        next_aligned_end(at(OCT_31), far, 31).unix_timestamp(),
        OCT_31 + 86_400
    );
}

#[test]
fn next_aligned_end_stops_at_the_end() {
    // the boundary lies past the end: the largest whole unit that is left
    let start = at(NOV_9);
    assert_eq!(
        next_aligned_end(start, at(NOV_9 + 2 * 86_400 + 5), 9).unix_timestamp(),
        NOV_9 + 2 * 86_400
    );
    assert_eq!(
        next_aligned_end(start, at(NOV_9 + 5 * 3_600 + 59), 9).unix_timestamp(),
        NOV_9 + 5 * 3_600
    );
    assert_eq!(
        next_aligned_end(start, at(NOV_9 + 7 * 60 + 1), 9).unix_timestamp(),
        NOV_9 + 7 * 60
    );
    assert_eq!(
        next_aligned_end(start, at(NOV_9 + 45), 9).unix_timestamp(),
        NOV_9 + 45
    );
    assert_eq!(
        new_curr_end(start, at(NOV_9 + 45)).unix_timestamp(),
        NOV_9 + 45
    );
}

#[test]
fn split_covers_the_range_without_gaps() {
    let start = at(NOV_9 + 15 * 3_600 + 50 * 60 + 50);
    let end = at(NOV_9 + 2 * 86_400 + 12 * 3_600 + 30 * 60 + 45);
    let ranges = split_wheel_ranges(WheelRange::new(start, end));
    let lengths: Vec<i64> = ranges
        .iter()
        .map(|r| r.end.unix_timestamp() - r.start.unix_timestamp())
        .collect();
    assert_eq!(
        lengths,
        vec![10, 9 * 60, 8 * 3_600, 86_400, 12 * 3_600, 30 * 60, 45]
    );
    assert_eq!(ranges[0].start, start);
    assert_eq!(ranges[ranges.len() - 1].end, end);
    for pair in ranges.windows(2) {
        assert_eq!(pair[0].end, pair[1].start);
    }
    // the function of the hierarchy is the same
    assert_eq!(
        Haw::<U64SumAggregator>::split_wheel_ranges(WheelRange::new(start, end)),
        ranges
    );
}

#[test]
fn split_of_an_empty_or_reversed_range_is_empty() {
    assert!(split_wheel_ranges(WheelRange::new(at(NOV_9), at(NOV_9))).is_empty());
    assert!(split_wheel_ranges(WheelRange::new(at(NOV_9 + 1), at(NOV_9))).is_empty());
}

#[test]
fn split_gets_past_the_last_day_of_a_long_month() {
    // 2023-10-09 00:00:00 to 2023-11-05 00:00:00
    let start = at(OCT_31 - 22 * 86_400);
    let end = at(OCT_31 + 5 * 86_400);
    let ranges = split_wheel_ranges(WheelRange::new(start, end));
    let lengths: Vec<i64> = ranges
        .iter()
        .map(|r| (r.end.unix_timestamp() - r.start.unix_timestamp()) / 86_400)
        .collect();
    assert_eq!(lengths, vec![22, 1, 4]);
    assert_eq!(ranges[1].start, at(OCT_31));
    assert_eq!(ranges[2].end, end);
}
