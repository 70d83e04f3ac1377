use haw::aggregator::U64SumAggregator;
use haw::entry::Entry;
use haw::entry::Error;
use haw::rw_wheel::RwWheel;
use haw::write_ahead::is_power_of_two;
use haw::write_ahead::WriteAheadWheel;
use haw::write_ahead::DEFAULT_WRITE_AHEAD_SLOTS;
use haw::writer::WriterWheel;

#[test]
fn power_of_two_check() {
    assert!(is_power_of_two(1));
    assert!(is_power_of_two(2));
    assert!(is_power_of_two(64));
    assert!(is_power_of_two(1 << 20));
    assert!(!is_power_of_two(0));
    assert!(!is_power_of_two(3));
    assert!(!is_power_of_two(96));
}

#[test]
fn write_ahead_slots_come_out_in_order_of_their_second() {
    let aggregator = U64SumAggregator;
    let mut wheel: WriteAheadWheel<U64SumAggregator> = WriteAheadWheel::with_capacity(8);
    assert_eq!(wheel.capacity(), 8);
    assert!(wheel.is_empty());
    assert_eq!(wheel.len(), 0);
    assert_eq!(wheel.write_ahead_len(), 8);
    wheel.write_ahead(0, 10, &aggregator).unwrap();
    wheel.write_ahead(2, 30, &aggregator).unwrap();
    wheel.write_ahead(2, 5, &aggregator).unwrap();
    wheel.write_ahead(7, 70, &aggregator).unwrap();
    assert_eq!(wheel.tick(), Some(10));
    assert_eq!(wheel.tick(), None);
    assert_eq!(wheel.tick(), Some(35));
    assert_eq!(wheel.head(), 3);
    assert_eq!(wheel.tail(), 3);
    // the slot written seven seconds ahead is now four seconds ahead
    wheel.write_ahead(4, 1, &aggregator).unwrap();
    assert_eq!(wheel.tick(), None);
    assert_eq!(wheel.tick(), None);
    assert_eq!(wheel.tick(), None);
    assert_eq!(wheel.tick(), None);
    assert_eq!(wheel.tick(), Some(71));
    assert_eq!(wheel.head(), 0);
    assert_eq!(wheel.tail(), 0);
}

#[test]
fn write_ahead_reach_ends_before_the_capacity() {
    let wheel: WriteAheadWheel<U64SumAggregator> = WriteAheadWheel::default();
    assert_eq!(wheel.capacity(), DEFAULT_WRITE_AHEAD_SLOTS);
    assert!(wheel.can_write_ahead(0));
    assert!(wheel.can_write_ahead(63));
    assert!(!wheel.can_write_ahead(64));
    assert!(!wheel.can_write_ahead(u64::MAX));
    let aggregator = U64SumAggregator;
    let mut wheel = wheel;
    assert_eq!(wheel.write_ahead(63, 1, &aggregator), Ok(()));
    assert_eq!(wheel.write_ahead(64, 2, &aggregator), Err(2));
}

#[test]
fn tick_that_finds_the_ring_empty_leaves_the_tail() {
    // with a single slot the head is back at the tail once it has moved
    let aggregator = U64SumAggregator;
    let mut wheel: WriteAheadWheel<U64SumAggregator> = WriteAheadWheel::with_capacity(1);
    wheel.write_ahead(0, 10, &aggregator).unwrap();
    assert_eq!(wheel.tick(), None);
    assert_eq!(wheel.tail(), 0);
    assert_eq!(wheel.head(), 0);
    assert_eq!(wheel.tick(), None);
    assert_eq!(wheel.tail(), 0);
}

#[test]
fn tick_on_blank_slots_yields_nothing() {
    let mut wheel: WriteAheadWheel<U64SumAggregator> = WriteAheadWheel::with_capacity(4);
    for _ in 0..9 {
        assert_eq!(wheel.tick(), None);
    }
    assert_eq!(wheel.head(), 1);
    assert_eq!(wheel.tail(), 1);
}

#[test]
fn insert_rejects_what_lies_beyond_the_write_ahead_slots() {
    let watermark = 1_699_488_000_000;
    let mut wheel = RwWheel::new(watermark, U64SumAggregator);
    let rejected = wheel.insert(Entry::new(7, watermark + 64_001));
    match rejected {
        Err(Error::Overflow {
            entry,
            max_write_ahead_ts,
        }) => {
            assert_eq!(max_write_ahead_ts, watermark + 64_000);
            assert_eq!(entry.data, 7);
            assert_eq!(entry.timestamp, watermark + 64_001);
        }
        _ => panic!("the entry lies beyond the write-ahead slots"),
    }
    let rejected = wheel.insert(Entry::new(7, watermark + 64_000)).unwrap_err();
    assert!(rejected.is_overflow());
    assert!(!rejected.is_late());
    // the last millisecond of the last slot is in reach
    assert!(wheel.insert(Entry::new(7, watermark + 63_999)).is_ok());
    assert!(wheel.insert(Entry::new(7, watermark)).is_ok());
}

#[test]
fn insert_rejects_what_is_older_than_the_watermark() {
    let mut writer = WriterWheel::new(5_000, U64SumAggregator);
    let rejected = writer.insert(Entry::new(3, 4_999));
    match rejected {
        Err(Error::Late { entry, watermark }) => {
            assert_eq!(watermark, 5_000);
            assert_eq!(entry.data, 3);
            assert_eq!(entry.timestamp, 4_999);
        }
        _ => panic!("the entry is older than the watermark"),
    }
    let rejected = writer.insert(Entry::new(3, 0)).unwrap_err();
    assert!(rejected.is_late());
    assert!(!rejected.is_overflow());
    assert_eq!(writer.watermark(), 5_000);
}

#[test]
fn writer_hands_on_one_second_with_each_tick() {
    let mut writer = WriterWheel::with_capacity(0, 4, U64SumAggregator);
    assert!(writer.insert(Entry::new(1, 0)).is_ok());
    assert!(writer.insert(Entry::new(2, 999)).is_ok());
    assert!(writer.insert(Entry::new(4, 1_000)).is_ok());
    assert!(writer.insert(Entry::new(8, 3_999)).is_ok());
    assert!(writer.insert(Entry::new(9, 4_000)).unwrap_err().is_overflow());
    assert_eq!(writer.tick(), Some(3));
    assert_eq!(writer.watermark(), 1_000);
    assert_eq!(writer.tick(), Some(4));
    assert_eq!(writer.tick(), None);
    assert_eq!(writer.tick(), Some(8));
    assert_eq!(writer.watermark(), 4_000);
}
