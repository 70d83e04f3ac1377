use haw::aggregator::U64SumAggregator;
use haw::conf::HawConf;
use haw::duration::Duration;
use haw::entry::Entry;
use haw::hierarchical::Haw;
use haw::rw_wheel::RwWheel;
use haw::window::check_window;
use haw::window::create_pair_type;
use haw::window::PairType;
use haw::window::WindowManager;
use haw::window::WindowState;
use haw::writer::WriterWheel;

#[test]
fn pairs_of_a_window() {
    assert_eq!(create_pair_type(10_000, 5_000), PairType::Even(5_000));
    assert_eq!(create_pair_type(10_000, 10_000), PairType::Even(10_000));
    assert_eq!(create_pair_type(10_000, 3_000), PairType::Uneven(2_000, 1_000));
    assert_eq!(create_pair_type(7_000, 4_000), PairType::Uneven(1_000, 3_000));
}

#[test]
fn windows_need_pairs_of_a_second_or_more() {
    assert!(check_window(10_000, 5_000));
    assert!(check_window(10_000, 3_000));
    assert!(check_window(1_000, 1_000));
    // the slide is longer than the range, or shorter than a second
    assert!(!check_window(1_000, 2_000));
    assert!(!check_window(5_000, 999));
    assert!(!check_window(5_000, 0));
    // a pair of half a second
    assert!(!check_window(4_500, 2_000));
    assert!(!check_window(3_500, 2_000));
}

#[test]
fn window_state_alternates_uneven_pairs() {
    let mut state = WindowState::new(1_000, 7_000, 4_000);
    assert_eq!(state.pair_type, PairType::Uneven(1_000, 3_000));
    assert_eq!(state.current_pair_len, 3_000);
    assert_eq!(state.pair_ticks_remaining, 3);
    assert_eq!(state.next_pair_end, 4_000);
    assert_eq!(state.next_window_end, 8_000);
    assert!(!state.in_p1);
    state.update_pair_len();
    assert_eq!(state.current_pair_len, 1_000);
    assert!(state.in_p1);
    state.update_pair_len();
    assert_eq!(state.current_pair_len, 3_000);
    assert!(!state.in_p1);

    let mut even = WindowState::new(0, 10_000, 5_000);
    even.update_pair_len();
    assert_eq!(even.current_pair_len, 5_000);
    assert!(!even.in_p1);
}

#[test]
fn window_manager_emits_when_a_window_ends() {
    let mut manager: WindowManager<U64SumAggregator> = WindowManager::new(0, 4_000, 2_000);
    assert_eq!(manager.on_tick(), None);
    assert_eq!(manager.on_tick(), Some(2_000));
    assert_eq!(manager.complete_pair(2_000, 3), None);
    assert_eq!(manager.query(), 3);
    assert_eq!(manager.state().pair_ticks_remaining, 2);
    assert_eq!(manager.state().next_pair_end, 4_000);
    assert_eq!(manager.on_tick(), None);
    assert_eq!(manager.on_tick(), Some(2_000));
    assert_eq!(manager.complete_pair(4_000, 7), Some((4_000, 10)));
    assert_eq!(manager.query(), 7);
    assert_eq!(manager.state().next_window_end, 6_000);
}

#[test]
fn sliding_window_over_an_advance() {
    let mut wheel = RwWheel::new(0, U64SumAggregator);
    for second in 0..6u64 {
        wheel.insert(Entry::new(second + 1, second * 1_000)).unwrap();
    }
    let mut haw: Haw<U64SumAggregator> = Haw::new(0, HawConf::default());
    let mut writer = WriterWheel::new(0, U64SumAggregator);
    for second in 0..6u64 {
        writer.insert(Entry::new(second + 1, second * 1_000)).unwrap();
    }
    haw.window(Duration::seconds(4), Duration::seconds(2));
    let windows = haw.advance(Duration::seconds(6), &mut writer);
    // the windows over seconds 0 to 3 and 2 to 5
    assert_eq!(windows, vec![(4_000, 1 + 2 + 3 + 4), (6_000, 3 + 4 + 5 + 6)]);
    assert_eq!(haw.watermark(), 6_000);
    assert_eq!(writer.watermark(), 6_000);
    // nothing more came in: the next window holds the last two seconds only
    let windows = haw.advance(Duration::seconds(2), &mut writer);
    assert_eq!(windows, vec![(8_000, 5 + 6)]);
    // without a window an advance hands back none
    assert_eq!(wheel.advance(Duration::seconds(6)), vec![]);
    assert_eq!(wheel.read().landmark(), Some(21));
}

#[test]
fn sliding_window_with_uneven_pairs() {
    let mut haw: Haw<U64SumAggregator> = Haw::new(0, HawConf::default());
    let mut writer = WriterWheel::new(0, U64SumAggregator);
    for second in 0..12u64 {
        writer.insert(Entry::new(1 << second, second * 1_000)).unwrap();
    }
    // pairs of three seconds and of one second, in turn
    haw.window(Duration::seconds(7), Duration::seconds(4));
    let windows = haw.advance(Duration::seconds(12), &mut writer);
    // the first window spans seconds 0 to 6; one pair leaves with it, so
    // the second holds the pairs from second 3 on
    assert_eq!(windows, vec![(7_000, 0b0111_1111), (11_000, 0b0111_1111_1000)]);
}

#[test]
fn sliding_window_is_stepped_by_deltas_too() {
    let mut haw: Haw<U64SumAggregator> = Haw::new(0, HawConf::default());
    let mut writer = WriterWheel::new(0, U64SumAggregator);
    haw.window(Duration::seconds(4), Duration::seconds(2));
    // three seconds by deltas: the first pair is taken in on the way
    haw.delta_advance(vec![Some(1), Some(2), Some(3)]);
    assert_eq!(writer.tick(), None);
    assert_eq!(writer.tick(), None);
    assert_eq!(writer.tick(), None);
    writer.insert(Entry::new(4, 3_000)).unwrap();
    writer.insert(Entry::new(5, 4_000)).unwrap();
    writer.insert(Entry::new(6, 5_000)).unwrap();
    let windows = haw.advance(Duration::seconds(3), &mut writer);
    assert_eq!(windows, vec![(4_000, 1 + 2 + 3 + 4), (6_000, 3 + 4 + 5 + 6)]);
}

#[test]
fn advance_beyond_a_cycle_clears_the_wheels() {
    let mut wheel = RwWheel::new(0, U64SumAggregator);
    wheel.insert(Entry::new(5, 0)).unwrap();
    wheel.advance(Duration::seconds(70));
    assert_eq!(wheel.read().landmark(), Some(5));
    assert_eq!(wheel.read().len(), 61);
    let windows = wheel.advance(Duration::seconds(314_496_002));
    assert!(windows.is_empty());
    assert_eq!(wheel.watermark(), 70_000);
    assert!(wheel.read().is_empty());
    assert_eq!(wheel.read().landmark(), None);
    assert_eq!(wheel.read().current_time_in_cycle().whole_seconds(), 0);
    // the cycle starts anew at the watermark
    wheel.advance(Duration::seconds(2));
    assert_eq!(wheel.watermark(), 72_000);
    assert_eq!(wheel.read().interval(Duration::seconds(2)), Some(0));
    assert_eq!(wheel.read().len(), 2);
}

#[test]
fn advance_to_goes_by_whole_seconds_and_never_back() {
    let mut wheel = RwWheel::new(10_000, U64SumAggregator);
    wheel.insert(Entry::new(5, 10_500)).unwrap();
    wheel.insert(Entry::new(6, 12_000)).unwrap();
    assert!(wheel.advance_to(9_000).is_empty());
    assert_eq!(wheel.watermark(), 10_000);
    wheel.advance_to(12_999);
    assert_eq!(wheel.watermark(), 12_000);
    assert_eq!(wheel.read().landmark(), Some(5));
    wheel.advance_to(13_000);
    assert_eq!(wheel.watermark(), 13_000);
    assert_eq!(wheel.read().landmark(), Some(11));
    assert_eq!(wheel.read().interval(Duration::seconds(1)), Some(6));
}
