use crate::aggregator::Aggregator;
use crate::aggregator::combine_or_insert;
use crate::aggregator::fold_some;
use crate::aggregator::lemma_fold_single;
use crate::conf::CYCLE_LENGTH_SECS;
use crate::conf::DataLayout;
use crate::conf::DAY_AS_SECS;
use crate::conf::DAYS;
use crate::conf::HawConf;
use crate::conf::HOUR_AS_SECS;
use crate::conf::HOURS;
use crate::conf::MINUTE_AS_SECS;
use crate::conf::MINUTES;
use crate::conf::SECONDS;
use crate::conf::TOTAL_SECS_IN_WHEEL;
use crate::conf::TOTAL_WHEEL_SLOTS;
use crate::conf::WEEK_AS_SECS;
use crate::conf::WEEKS;
use crate::conf::WheelConf;
use crate::conf::YEAR_AS_SECS;
use crate::conf::YEARS;
use crate::datetime::DateTime;
use crate::datetime::in_calendar;
use crate::delta::DeltaState;
use crate::duration::Duration;
use crate::frequency::WheelFrequencies;
use crate::granularity::Granularity;
use crate::laws::lemma_landmark_is_rollup;
use crate::laws::live_slots;
use crate::maybe::MaybeView;
use crate::maybe::MaybeWheel;
use crate::model::chunk;
use crate::model::lemma_expected_idle;
use crate::model::lemma_expected_ticks;
use crate::model::lemma_expected_well_formed;
use crate::model::lemma_not_reached;
use crate::model::lemma_rollup_chunk;
use crate::model::lemma_rotation_reaches;
use crate::plan::Aggregation;
use crate::plan::capped;
use crate::plan::CombinedAggregation;
use crate::plan::ExecutionPlan;
use crate::plan::PlanView;
use crate::plan::total_cost;
use crate::plan::WheelAggregation;
use crate::query::aggregation_plan;
use crate::query::best_plan;
use crate::query::by_granularity;
use crate::query::combine_range_of;
use crate::query::combined_plan;
use crate::query::combined_result;
use crate::query::execute;
use crate::query::inverse_applies;
use crate::query::inverse_gaps;
use crate::query::inverse_result;
use crate::query::landmark_of;
use crate::query::of_rank;
use crate::query::plans_of;
use crate::query::reduce_spec;
use crate::query::wheel_aggregation;
use crate::query::wheel_totals;
use crate::range::split_ranges;
use crate::range::split_wheel_ranges;
use crate::range::WheelRange;
use crate::state::advanced;
use crate::state::cleared_view;
use crate::state::converted_view;
use crate::state::delta_advanced;
use crate::state::delta_value;
use crate::state::delta_values;
use crate::state::frozen;
use crate::state::HawState;
use crate::state::HawView;
use crate::state::idled;
use crate::state::initial_view;
use crate::state::lemma_cycle_secs;
use crate::state::lemma_merge_keeps_shape;
use crate::state::merged_view;
use crate::state::pair_value;
use crate::state::second_with;
use crate::state::size_of_view;
use crate::state::stepped;
use crate::state::ticked_view;
use crate::state::wheel_holds;
use crate::state::wheel_in_shape;
use crate::state::wheels_hold;
use crate::state::wheels_in_shape;
use crate::state::window_stepped;
use crate::wheel::AggregationWheel;
use crate::wheel::ticked;
use crate::window::valid_window;
use crate::window::WindowManager;
use crate::window::WindowState;
use crate::window::WindowView;
use crate::writer::WriterWheel;
use vstd::prelude::*;

verus! {

/// Why a query was turned down.
#[derive(Debug, Clone, Copy, PartialEq, Eq, Structural)]
pub enum QueryError {
    /// The range is empty or reversed.
    Invalid,
}

impl QueryError {
    /// The error in words.
    pub fn message(&self) -> (message: String)
        ensures
            message@ == "Invalid Date Range"@,
    {
        "Invalid Date Range".to_string()
    }
}

/// Hierarchical aggregation wheel: six wheels of seconds, minutes, hours,
/// days, weeks and years. Every tick inserts the partial aggregate of one
/// second into the seconds wheel; a wheel that completes a rotation hands
/// the combination of its slots to the wheel above.
pub struct Haw<A: Aggregator> {
    watermark: u64,
    frequencies: WheelFrequencies,
    seconds_wheel: MaybeWheel<A>,
    minutes_wheel: MaybeWheel<A>,
    hours_wheel: MaybeWheel<A>,
    days_wheel: MaybeWheel<A>,
    weeks_wheel: MaybeWheel<A>,
    years_wheel: MaybeWheel<A>,
    window_manager: Option<WindowManager<A>>,
    conf: HawConf,
    delta: DeltaState<A::PartialAggregate>,
    /// What each tick has inserted since the hierarchy was made or cleared
    history: Ghost<Seq<A::PartialAggregate>>,
}

impl<A: Aggregator> View for Haw<A> {
    type V = HawView<A::PartialAggregate>;

    closed spec fn view(&self) -> HawView<A::PartialAggregate> {
        HawView {
            watermark: self.watermark,
            seconds: self.seconds_wheel@,
            minutes: self.minutes_wheel@,
            hours: self.hours_wheel@,
            days: self.days_wheel@,
            weeks: self.weeks_wheel@,
            years: self.years_wheel@,
        }
    }
}

/// Moves one wheel through a tick of the hierarchy. Where the wheel below
/// has rolled up, that is written to the wheel and the wheel is ticked;
/// what it rolls up in turn is handed on. Else the wheel stays as it is.
fn step_wheel<A: Aggregator>(
    wheel: &mut MaybeWheel<A>,
    rolled: Option<A::PartialAggregate>,
    into_head: bool,
    Ghost(history): Ghost<Seq<A::PartialAggregate>>,
    Ghost(partial): Ghost<A::PartialAggregate>,
    Ghost(start_ms): Ghost<int>,
    Ghost(unit): Ghost<int>,
    Ghost(capacity): Ghost<usize>,
    Ghost(faithful): Ghost<bool>,
) -> (up: Option<A::PartialAggregate>)
    requires
        old(wheel).wf(),
        unit >= 1,
        capacity >= 1,
        unit * 1000 <= u64::MAX,
        start_ms >= 0,
        start_ms + (history.len() + 1) * 1000 <= u64::MAX,
        wheel_in_shape::<A>(old(wheel)@, history, start_ms, unit, capacity),
        rolled is Some <==> (history.len() as int + 1) % unit == 0,
        faithful ==> wheel_holds::<A>(old(wheel)@, history, start_ms, unit),
        faithful ==> (rolled matches Some(r) ==> r == chunk::<A>(
            history.push(partial),
            unit,
            history.len() as int / unit,
        )),
    ensures
        final(wheel).wf(),
        final(wheel)@ == stepped::<A>(old(wheel)@, rolled, into_head).0,
        up == stepped::<A>(old(wheel)@, rolled, into_head).1,
        wheel_in_shape::<A>(final(wheel)@, history.push(partial), start_ms, unit, capacity),
        up is Some <==> (history.len() as int + 1) % (unit * capacity) == 0,
        faithful ==> wheel_holds::<A>(final(wheel)@, history.push(partial), start_ms, unit),
        faithful ==> (up matches Some(r) ==> r == chunk::<A>(
            history.push(partial),
            unit * capacity,
            history.len() as int / (unit * capacity),
        )),
{
    let ghost before = wheel@;
    let ghost ticks = history.len() as int;
    proof {
        wheel.lemma_wf();
        lemma_expected_well_formed::<A>(history, start_ms, before.conf, unit);
    }
    match rolled {
        Some(r) => {
            proof {
                lemma_expected_ticks::<A>(history, partial, start_ms, unit, before, r);
                lemma_rotation_reaches(ticks, unit, capacity as int);
                if faithful && before.allocated().insert_slot(r).rotates() {
                    lemma_rollup_chunk::<A>(history, partial, start_ms, before.conf, unit, r);
                }
            }
            if into_head {
                wheel.insert_head(r);
            } else {
                wheel.insert_slot(r);
            }
            wheel.tick()
        },
        None => {
            proof {
                lemma_expected_idle::<A>(history, partial, start_ms, before.conf, unit);
                lemma_not_reached(ticks, unit, capacity as int);
            }
            None
        },
    }
}

impl<A: Aggregator> Haw<A> {
    /// What each tick has inserted since the hierarchy was made or last
    /// cleared, oldest first.
    pub closed spec fn history(&self) -> Seq<A::PartialAggregate> {
        self.history@
    }

    pub closed spec fn conf_spec(&self) -> HawConf {
        self.conf
    }

    /// The log of deltas.
    pub closed spec fn delta_spec(&self) -> DeltaState<A::PartialAggregate> {
        self.delta
    }

    /// The sliding window, where one is installed.
    pub closed spec fn window_spec(&self) -> Option<WindowView<A::PartialAggregate>> {
        match self.window_manager {
            Some(manager) => Some(manager@),
            None => None,
        }
    }

    pub closed spec fn frequencies_spec(&self) -> WheelFrequencies {
        self.frequencies
    }

    /// All that the hierarchy is.
    pub open spec fn state(&self) -> HawState<A::PartialAggregate> {
        HawState {
            view: self@,
            history: self.history(),
            deltas: self.delta_spec().deltas@,
            window: self.window_spec(),
            conf: self.conf_spec(),
        }
    }

    /// The invariant of the hierarchy: each wheel is well formed and stands
    /// where the count of ticks puts it.
    pub closed spec fn wf(&self) -> bool {
        &&& self.seconds_wheel.wf()
        &&& self.minutes_wheel.wf()
        &&& self.hours_wheel.wf()
        &&& self.days_wheel.wf()
        &&& self.weeks_wheel.wf()
        &&& self.years_wheel.wf()
        &&& wheels_in_shape::<A>(self@, self.history@)
        &&& self.window_manager matches Some(manager) ==> manager.wf()
    }

    /// Whether every slot of every wheel holds the combination of the
    /// ticks that it spans.
    pub closed spec fn consistent(&self) -> bool {
        wheels_hold::<A>(self@, self.history@)
    }

    pub proof fn lemma_wf(&self)
        requires
            self.wf(),
        ensures
            wheels_in_shape::<A>(self@, self.history()),
            self.window_spec() matches Some(window) ==> window.state.well_formed(),
    {
    }

    pub proof fn lemma_consistent(&self)
        requires
            self.consistent(),
        ensures
            wheels_hold::<A>(self@, self.history()),
    {
    }

    /// Whether a hierarchy of this aggregator can be made from `conf`: each
    /// wheel has the shape of its granularity, and prefix sums are asked
    /// only of a group.
    pub open spec fn accepts(conf: HawConf) -> bool {
        &&& conf.has_wheel_shapes()
        &&& conf.uses_prefix() ==> A::invertible_spec()
    }

    /// Tells whether a hierarchy of this aggregator can be made from `conf`.
    pub fn check_conf(conf: &HawConf) -> (ok: bool)
        ensures
            ok == Self::accepts(*conf),
    {
        conf.check_wheel_shapes() && (!conf.check_uses_prefix() || A::invertible())
    }

    /// A hierarchy that starts at `time`, in milliseconds, with no wheel
    /// allocated yet.
    pub fn new(time: u64, conf: HawConf) -> (haw: Self)
        requires
            Self::accepts(conf),
        ensures
            haw.wf(),
            haw.consistent(),
            haw.history() == Seq::<A::PartialAggregate>::empty(),
            haw.conf_spec() == conf,
            haw.window_spec() is None,
            haw.delta_spec().oldest_ts == time,
            haw.delta_spec().deltas@ == Seq::<Option<A::PartialAggregate>>::empty(),
            haw@ == initial_view::<A::PartialAggregate>(time, conf),
    {
        proof {
            reveal(wheels_in_shape);
            reveal(wheels_hold);
        }
        let mut seconds = conf.seconds;
        seconds.set_watermark(time);
        let mut minutes = conf.minutes;
        minutes.set_watermark(time);
        let mut hours = conf.hours;
        hours.set_watermark(time);
        let mut days = conf.days;
        days.set_watermark(time);
        let mut weeks = conf.weeks;
        weeks.set_watermark(time);
        let mut years = conf.years;
        years.set_watermark(time);
        Haw {
            watermark: time,
            frequencies: WheelFrequencies::new(),
            seconds_wheel: MaybeWheel::new(seconds),
            minutes_wheel: MaybeWheel::new(minutes),
            hours_wheel: MaybeWheel::new(hours),
            days_wheel: MaybeWheel::new(days),
            weeks_wheel: MaybeWheel::new(weeks),
            years_wheel: MaybeWheel::new(years),
            window_manager: None,
            conf,
            delta: DeltaState::new(time, Vec::new()),
            history: Ghost(Seq::empty()),
        }
    }

    /// Moves the hierarchy on by one second: the delta is logged where
    /// deltas are kept; the watermark advances and the delta (the identity
    /// where there is none) is rolled into the wheels; then the sliding
    /// window, where one is installed, is stepped, and a window that is due
    /// is appended to `windows`.
    fn tick(
        &mut self,
        partial_opt: Option<A::PartialAggregate>,
        windows: &mut Vec<(u64, A::PartialAggregate)>,
    )
        requires
            old(self).wf(),
            old(self)@.watermark + 1000 <= u64::MAX,
        ensures
            final(self).wf(),
            final(self).state() == second_with::<A>(old(self).state(), partial_opt).0,
            final(windows)@ == match second_with::<A>(old(self).state(), partial_opt).1 {
                Some(due) => old(windows)@.push(due),
                None => old(windows)@,
            },
            final(self)@.watermark == old(self)@.watermark + 1000,
            old(self).consistent() ==> final(self).consistent(),
            final(self).frequencies_spec() == old(self).frequencies_spec(),
    {
        if self.conf.generate_deltas {
            self.delta.push(partial_opt);
        }
        self.roll(partial_opt);
        self.handle_window_maybe(windows);
    }

    /// Rolls the delta of one second into the wheels: the watermark
    /// advances, the delta (the identity where there is none) goes into
    /// the seconds wheel, and each wheel that completes a rotation hands
    /// the combination of its slots to the wheel above. What the years
    /// wheel rolls up is dropped.
    fn roll(&mut self, partial_opt: Option<A::PartialAggregate>)
        requires
            old(self).wf(),
            old(self)@.watermark + 1000 <= u64::MAX,
        ensures
            final(self).wf(),
            final(self)@ == ticked_view::<A>(old(self)@, delta_value::<A>(partial_opt)),
            final(self)@.watermark == old(self)@.watermark + 1000,
            final(self).history() == old(self).history().push(delta_value::<A>(partial_opt)),
            old(self).consistent() ==> final(self).consistent(),
            final(self).conf_spec() == old(self).conf_spec(),
            final(self).delta_spec() == old(self).delta_spec(),
            final(self).window_spec() == old(self).window_spec(),
            final(self).frequencies_spec() == old(self).frequencies_spec(),
    {
        proof {
            reveal(wheels_in_shape);
            reveal(wheels_hold);
        }
        let ghost history = self.history@;
        let ghost start_ms = self.watermark - history.len() * 1000;
        let ghost faithful = self.consistent();
        let partial = match partial_opt {
            Some(partial) => partial,
            None => A::identity(),
        };
        proof {
            let after = history.push(partial);
            let ticks = history.len() as int;
            assert(after.subrange(ticks, ticks + 1) =~= seq![partial]);
            lemma_fold_single::<A>(partial);
        }
        self.watermark = self.watermark + 1000;
        let up = step_wheel(
            &mut self.seconds_wheel,
            Some(partial),
            true,
            Ghost(history),
            Ghost(partial),
            Ghost(start_ms),
            Ghost(1),
            Ghost(SECONDS),
            Ghost(faithful),
        );
        let up = step_wheel(
            &mut self.minutes_wheel,
            up,
            false,
            Ghost(history),
            Ghost(partial),
            Ghost(start_ms),
            Ghost(60),
            Ghost(MINUTES),
            Ghost(faithful),
        );
        let up = step_wheel(
            &mut self.hours_wheel,
            up,
            false,
            Ghost(history),
            Ghost(partial),
            Ghost(start_ms),
            Ghost(3600),
            Ghost(HOURS),
            Ghost(faithful),
        );
        let up = step_wheel(
            &mut self.days_wheel,
            up,
            false,
            Ghost(history),
            Ghost(partial),
            Ghost(start_ms),
            Ghost(86_400),
            Ghost(DAYS),
            Ghost(faithful),
        );
        let up = step_wheel(
            &mut self.weeks_wheel,
            up,
            false,
            Ghost(history),
            Ghost(partial),
            Ghost(start_ms),
            Ghost(604_800),
            Ghost(WEEKS),
            Ghost(faithful),
        );
        let _ = step_wheel(
            &mut self.years_wheel,
            up,
            false,
            Ghost(history),
            Ghost(partial),
            Ghost(start_ms),
            Ghost(31_449_600),
            Ghost(YEARS),
            Ghost(faithful),
        );
        self.history = Ghost(history.push(partial));
    }

    /// Moves the hierarchy on by one second for each delta, oldest first,
    /// as if each had come from the write-ahead slots: it is logged where
    /// deltas are kept, rolled into the wheels, and the sliding window is
    /// stepped. The windows that come due are dropped.
    pub fn delta_advance(&mut self, deltas: Vec<Option<A::PartialAggregate>>)
        requires
            old(self).wf(),
            old(self)@.watermark + deltas@.len() * 1000 <= u64::MAX,
        ensures
            final(self).wf(),
            final(self).state() == delta_advanced::<A>(old(self).state(), deltas@),
            final(self)@.watermark == old(self)@.watermark + deltas@.len() * 1000,
            final(self).history() == old(self).history() + delta_values::<A>(deltas@),
            old(self).consistent() ==> final(self).consistent(),
            final(self).conf_spec() == old(self).conf_spec(),
            final(self).frequencies_spec() == old(self).frequencies_spec(),
    {
        let mut dropped: Vec<(u64, A::PartialAggregate)> = Vec::new();
        let mut i: usize = 0;
        proof {
            assert(deltas@.subrange(0, 0) =~= Seq::empty());
            assert(delta_values::<A>(deltas@.subrange(0, 0)) =~= Seq::empty());
            assert(self.history() =~= old(self).history() + delta_values::<A>(
                deltas@.subrange(0, 0),
            ));
        }
        while i < deltas.len()
            invariant
                0 <= i <= deltas@.len(),
                self.wf(),
                self.state() == delta_advanced::<A>(
                    old(self).state(),
                    deltas@.subrange(0, i as int),
                ),
                old(self)@.watermark + deltas@.len() * 1000 <= u64::MAX,
                self@.watermark == old(self)@.watermark + i * 1000,
                self.history() == old(self).history() + delta_values::<A>(
                    deltas@.subrange(0, i as int),
                ),
                old(self).consistent() ==> self.consistent(),
                self.conf_spec() == old(self).conf_spec(),
                self.frequencies_spec() == old(self).frequencies_spec(),
            decreases deltas@.len() - i,
        {
            self.tick(deltas[i], &mut dropped);
            proof {
                assert(deltas@.subrange(0, i + 1).drop_last() =~= deltas@.subrange(0, i as int));
                assert(delta_values::<A>(deltas@.subrange(0, i + 1)) =~= delta_values::<A>(
                    deltas@.subrange(0, i as int),
                ).push(delta_value::<A>(deltas@[i as int])));
                assert(self.history() =~= old(self).history() + delta_values::<A>(
                    deltas@.subrange(0, i + 1),
                ));
            }
            i += 1;
        }
        assert(deltas@.subrange(0, deltas@.len() as int) =~= deltas@);
    }

    /// Drops the slots of all wheels. The watermark stays, and the cycle
    /// starts anew from it.
    pub fn clear(&mut self)
        requires
            old(self).wf(),
        ensures
            final(self).wf(),
            final(self).consistent(),
            final(self).history() == Seq::<A::PartialAggregate>::empty(),
            final(self)@ == cleared_view(old(self)@),
            final(self)@.watermark == old(self)@.watermark,
            final(self).conf_spec() == old(self).conf_spec(),
            final(self).delta_spec() == old(self).delta_spec(),
            final(self).window_spec() == old(self).window_spec(),
            final(self).frequencies_spec() == old(self).frequencies_spec(),
    {
        proof {
            reveal(wheels_in_shape);
            reveal(wheels_hold);
        }
        let watermark = self.watermark;
        self.seconds_wheel.clear(watermark);
        self.minutes_wheel.clear(watermark);
        self.hours_wheel.clear(watermark);
        self.days_wheel.clear(watermark);
        self.weeks_wheel.clear(watermark);
        self.years_wheel.clear(watermark);
        self.history = Ghost(Seq::empty());
    }

    /// Sets whether a split plan has to beat the SIMD threshold.
    pub fn set_optimizer_hints(&mut self, hints: bool)
        ensures
            final(self).conf_spec().optimizer.use_hints_spec() == hints,
            final(self).conf_spec().optimizer.heuristics_spec() == old(
                self,
            ).conf_spec().optimizer.heuristics_spec(),
            final(self).conf_spec() == (HawConf {
                optimizer: final(self).conf_spec().optimizer,
                ..old(self).conf_spec()
            }),
            final(self)@ == old(self)@,
            final(self).history() == old(self).history(),
            final(self).wf() == old(self).wf(),
            final(self).consistent() == old(self).consistent(),
            final(self).delta_spec() == old(self).delta_spec(),
            final(self).window_spec() == old(self).window_spec(),
    {
        self.conf.optimizer.use_hints(hints);
    }

    /// A copy of the log of deltas.
    pub fn delta_state(&self) -> (state: DeltaState<A::PartialAggregate>)
        ensures
            state.oldest_ts == self.delta_spec().oldest_ts,
            state.deltas@ == self.delta_spec().deltas@,
    {
        self.delta.snapshot()
    }

    /// Slots in use over all wheels.
    pub fn len(&self) -> (len: usize)
        requires
            self.wf(),
        ensures
            len == self@.len(),
            len <= TOTAL_WHEEL_SLOTS,
    {
        proof {
            lemma_cycle_secs::<A>(self@, self.history@);
        }
        self.seconds_wheel.len() + self.minutes_wheel.len() + self.hours_wheel.len()
            + self.days_wheel.len() + self.weeks_wheel.len() + self.years_wheel.len()
    }

    /// Whether no wheel holds a slot: the hierarchy has not been ticked.
    pub fn is_empty(&self) -> (empty: bool)
        requires
            self.wf(),
        ensures
            empty == (self@.len() == 0),
    {
        self.len() == 0
    }

    /// Whether every slot of every wheel is in use.
    pub fn is_full(&self) -> (full: bool)
        requires
            self.wf(),
        ensures
            full == (self@.len() == TOTAL_WHEEL_SLOTS),
    {
        self.len() == TOTAL_WHEEL_SLOTS
    }

    /// The watermark as a date and time.
    pub fn now(&self) -> (now: DateTime)
        requires
            in_calendar(self@.watermark as int / 1000),
        ensures
            now.secs() == self@.watermark / 1000,
    {
        let secs: u64 = self.watermark / 1000;
        match DateTime::from_unix_timestamp(secs as i64) {
            Some(now) => now,
            None => DateTime::unix_epoch(),
        }
    }

    /// Where the hierarchy stands in its cycle, told from the positions of
    /// its wheels: the seconds that have been ticked since the hierarchy
    /// was made or cleared, less the whole cycles of ten years among them.
    pub fn current_time_in_cycle(&self) -> (time: Duration)
        requires
            self.wf(),
        ensures
            time.as_millis() == self@.cycle_secs() * 1000,
            time.as_secs() == self@.cycle_secs(),
            self@.cycle_secs() == self.history().len() % (TOTAL_SECS_IN_WHEEL as nat),
    {
        proof {
            lemma_cycle_secs::<A>(self@, self.history@);
        }
        let secs: u64 = self.seconds_wheel.rotation_count() as u64;
        let min_secs: u64 = self.minutes_wheel.rotation_count() as u64 * MINUTE_AS_SECS;
        let hr_secs: u64 = self.hours_wheel.rotation_count() as u64 * HOUR_AS_SECS;
        let day_secs: u64 = self.days_wheel.rotation_count() as u64 * DAY_AS_SECS;
        let week_secs: u64 = self.weeks_wheel.rotation_count() as u64 * WEEK_AS_SECS;
        let year_secs: u64 = self.years_wheel.rotation_count() as u64 * YEAR_AS_SECS;
        let cycle_time: u64 = secs + min_secs + hr_secs + day_secs + week_secs + year_secs;
        Duration::seconds(cycle_time as i64)
    }

    /// Ticks that are left until the cycle is complete.
    pub fn remaining_ticks(&self) -> (ticks: u64)
        requires
            self.wf(),
        ensures
            ticks == TOTAL_SECS_IN_WHEEL - self@.cycle_secs(),
            ticks == TOTAL_SECS_IN_WHEEL - self.history().len() % (TOTAL_SECS_IN_WHEEL as nat),
    {
        TOTAL_SECS_IN_WHEEL - self.current_time_in_cycle().whole_seconds() as u64
    }

    /// Installs a sliding window of `range` that moves by `slide`, from the
    /// watermark on.
    pub fn window(&mut self, range: Duration, slide: Duration)
        requires
            old(self).wf(),
            0 <= range.as_millis() <= usize::MAX,
            0 <= slide.as_millis() <= usize::MAX,
            valid_window(range.as_millis() as usize, slide.as_millis() as usize),
        ensures
            final(self).wf(),
            final(self).window_spec() == Some(
                WindowView::<A::PartialAggregate> {
                    state: WindowState::initial(
                        old(self)@.watermark,
                        range.as_millis() as usize,
                        slide.as_millis() as usize,
                    ),
                    pairs: Seq::empty(),
                },
            ),
            final(self)@ == old(self)@,
            final(self).history() == old(self).history(),
            final(self).consistent() == old(self).consistent(),
            final(self).conf_spec() == old(self).conf_spec(),
            final(self).delta_spec() == old(self).delta_spec(),
    {
        let range_ms: usize = range.whole_milliseconds() as usize;
        let slide_ms: usize = slide.whole_milliseconds() as usize;
        self.window_manager = Some(WindowManager::new(self.watermark, range_ms, slide_ms));
    }

    /// How the wheel of its granularity answers a range.
    fn wheel_aggregation_plan(&self, range: WheelRange) -> (aggregation: WheelAggregation)
        ensures
            aggregation == aggregation_plan(self@, range),
    {
        let wheel = match range.lowest_granularity() {
            Granularity::Second => &self.seconds_wheel,
            Granularity::Minute => &self.minutes_wheel,
            Granularity::Hour => &self.hours_wheel,
            Granularity::Day => &self.days_wheel,
        };
        let plan = if !wheel.is_allocated() {
            Aggregation::Scan(0)
        } else if wheel.is_prefix() {
            Aggregation::Prefix
        } else {
            let slots: i64 = range.scan_estimation();
            if slots < 0 || slots as u64 > usize::MAX as u64 {
                Aggregation::Scan(usize::MAX)
            } else {
                Aggregation::Scan(slots as usize)
            }
        };
        WheelAggregation::new(range, plan)
    }

    /// Combines the slots that a range spans in the wheel of its
    /// granularity: seconds where either end has a non-zero second, else
    /// minutes, hours or days. The start is inclusive, the end exclusive.
    /// `None` where that wheel does not hold all of the range.
    pub fn wheel_aggregation(&self, range: WheelRange) -> (result: Option<A::PartialAggregate>)
        requires
            self.wf(),
        ensures
            result == wheel_aggregation::<A>(self@, range),
    {
        let granularity = range.lowest_granularity();
        let slots: i64 = range.scan_estimation();
        proof {
            self.seconds_wheel.lemma_wf();
            self.minutes_wheel.lemma_wf();
            self.hours_wheel.lemma_wf();
            self.days_wheel.lemma_wf();
        }
        if slots < 1 || slots as u64 > usize::MAX as u64 {
            return None;
        }
        match granularity {
            Granularity::Second => self.seconds_wheel.aggregate(
                range.start,
                slots as usize,
                Granularity::Second,
            ),
            Granularity::Minute => self.minutes_wheel.aggregate(
                range.start,
                slots as usize,
                Granularity::Minute,
            ),
            Granularity::Hour => self.hours_wheel.aggregate(
                range.start,
                slots as usize,
                Granularity::Hour,
            ),
            Granularity::Day => self.days_wheel.aggregate(
                range.start,
                slots as usize,
                Granularity::Day,
            ),
        }
    }

    /// Combines the totals that are there, in the order given, and counts
    /// the combines.
    fn reduce(totals: &Vec<Option<A::PartialAggregate>>) -> (reduced: (
        Option<A::PartialAggregate>,
        usize,
    ))
        ensures
            reduced.0 == reduce_spec::<A>(totals@).0,
            reduced.1 == reduce_spec::<A>(totals@).1,
    {
        let mut result: Option<A::PartialAggregate> = None;
        let mut combines: usize = 0;
        let mut i: usize = 0;
        assert(totals@.subrange(0, 0) =~= Seq::empty());
        while i < totals.len()
            invariant
                0 <= i <= totals@.len(),
                combines <= i,
                result == reduce_spec::<A>(totals@.subrange(0, i as int)).0,
                combines == reduce_spec::<A>(totals@.subrange(0, i as int)).1,
            decreases totals@.len() - i,
        {
            proof {
                assert(totals@.subrange(0, i + 1).drop_last() =~= totals@.subrange(0, i as int));
            }
            match (result, totals[i]) {
                (Some(current), Some(partial)) => {
                    combines = combines + 1;
                    result = Some(A::combine(current, partial));
                },
                (None, Some(partial)) => {
                    result = Some(partial);
                },
                _ => {},
            }
            i += 1;
        }
        assert(totals@.subrange(0, totals@.len() as int) =~= totals@);
        (result, combines)
    }

    /// The landmark, and the combines that it took.
    pub fn analyze_landmark(&self) -> (result: (Option<A::PartialAggregate>, usize))
        requires
            self.wf(),
        ensures
            result.0 == landmark_of::<A>(self@).0,
            result.1 == landmark_of::<A>(self@).1,
    {
        let mut totals: Vec<Option<A::PartialAggregate>> = Vec::new();
        totals.push(self.seconds_wheel.total());
        totals.push(self.minutes_wheel.total());
        totals.push(self.hours_wheel.total());
        totals.push(self.days_wheel.total());
        totals.push(self.weeks_wheel.total());
        totals.push(self.years_wheel.total());
        assert(totals@ =~= wheel_totals::<A>(self@));
        Self::reduce(&totals)
    }

    /// The landmark: the combination of the totals of all wheels, which
    /// spans the cycle under way up to the watermark.
    pub fn landmark(&self) -> (result: Option<A::PartialAggregate>)
        requires
            self.wf(),
        ensures
            result == landmark_of::<A>(self@).0,
            result == fold_some::<A>(live_slots(self@)),
    {
        proof {
            reveal(wheels_in_shape);
            lemma_landmark_is_rollup::<A>(self@);
        }
        self.analyze_landmark().0
    }

    /// The landmark, lowered.
    pub fn landmark_and_lower(&self) -> (result: Option<A::Aggregate>)
        requires
            self.wf(),
        ensures
            result == match landmark_of::<A>(self@).0 {
                Some(partial) => Some(A::lower_spec(partial)),
                None => None,
            },
    {
        match self.landmark() {
            Some(partial) => Some(A::lower(partial)),
            None => None,
        }
    }

    /// Appends to `sorted` the aggregations of one granularity, in the
    /// order in which they stand.
    fn append_of_rank(
        sorted: &mut Vec<WheelAggregation>,
        aggregations: &Vec<WheelAggregation>,
        rank: usize,
    )
        ensures
            final(sorted)@ == old(sorted)@ + of_rank(aggregations@, rank as int),
    {
        let mut i: usize = 0;
        assert(aggregations@.subrange(0, 0) =~= Seq::empty());
        assert(sorted@ =~= old(sorted)@ + of_rank(aggregations@.subrange(0, 0), rank as int));
        while i < aggregations.len()
            invariant
                0 <= i <= aggregations@.len(),
                sorted@ == old(sorted)@ + of_rank(aggregations@.subrange(0, i as int), rank as int),
            decreases aggregations@.len() - i,
        {
            proof {
                assert(aggregations@.subrange(0, i + 1).drop_last() =~= aggregations@.subrange(
                    0,
                    i as int,
                ));
            }
            let aggregation = aggregations[i];
            if aggregation.range.lowest_granularity().as_usize() == rank {
                sorted.push(aggregation);
            }
            assert(sorted@ =~= old(sorted)@ + of_rank(
                aggregations@.subrange(0, i + 1),
                rank as int,
            ));
            i += 1;
        }
        assert(aggregations@.subrange(0, aggregations@.len() as int) =~= aggregations@);
    }

    /// The combined plan for a list of sub-ranges: the plan of each,
    /// ordered from fine to coarse granularity so that the wheels are
    /// visited one after the other. Sub-ranges of one granularity stay in
    /// the order given.
    pub fn combined_aggregation_plan(&self, ranges: Vec<WheelRange>) -> (combined:
        CombinedAggregation)
        ensures
            combined.aggregations@ == combined_plan(self@, ranges@),
    {
        let mut aggregations: Vec<WheelAggregation> = Vec::new();
        let mut i: usize = 0;
        while i < ranges.len()
            invariant
                0 <= i <= ranges@.len(),
                aggregations@ == plans_of(self@, ranges@.subrange(0, i as int)),
            decreases ranges@.len() - i,
        {
            aggregations.push(self.wheel_aggregation_plan(ranges[i]));
            i += 1;
            assert(aggregations@ =~= plans_of(self@, ranges@.subrange(0, i as int)));
        }
        assert(ranges@.subrange(0, ranges@.len() as int) =~= ranges@);
        let mut sorted: Vec<WheelAggregation> = Vec::new();
        Self::append_of_rank(&mut sorted, &aggregations, 0);
        Self::append_of_rank(&mut sorted, &aggregations, 1);
        Self::append_of_rank(&mut sorted, &aggregations, 2);
        Self::append_of_rank(&mut sorted, &aggregations, 3);
        assert(sorted@ =~= by_granularity(aggregations@));
        CombinedAggregation::from(sorted)
    }

    /// Time at which the cycle under way began, in milliseconds.
    fn wheel_start(&self) -> (start: u64)
        requires
            self.wf(),
        ensures
            start == self@.wheel_start(),
    {
        let cycle = self.current_time_in_cycle().whole_milliseconds();
        if cycle < 0 || cycle > self.watermark as i128 {
            0
        } else {
            self.watermark - cycle as u64
        }
    }

    /// The plans of the gaps that an inverse landmark takes out; `None`
    /// where the range starts before the cycle or the calendar ends before
    /// the watermark.
    fn inverse_plan(&self, range: WheelRange, wheel_start: u64) -> (gaps: Option<
        Vec<WheelAggregation>,
    >)
        requires
            wheel_start == self@.wheel_start(),
        ensures
            gaps is Some == inverse_applies(self@, range),
            gaps matches Some(g) ==> g@ == inverse_gaps(self@, range),
    {
        let cycle_start = match DateTime::from_unix_timestamp((wheel_start / 1000) as i64) {
            Some(date) => date,
            None => {
                return None;
            },
        };
        let now = match DateTime::from_unix_timestamp((self.watermark / 1000) as i64) {
            Some(date) => date,
            None => {
                return None;
            },
        };
        if cycle_start.unix_timestamp() > range.start.unix_timestamp() {
            return None;
        }
        let mut gaps: Vec<WheelAggregation> = Vec::new();
        gaps.push(self.wheel_aggregation_plan(WheelRange::new(cycle_start, range.start)));
        if (range.end.unix_timestamp() as i128) * 1000 < self.watermark as i128 {
            gaps.push(self.wheel_aggregation_plan(WheelRange::new(range.end, now)));
        }
        assert(gaps@ =~= inverse_gaps(self@, range));
        Some(gaps)
    }

    /// The plan that a range query is executed by. The landmark where it
    /// covers the range, else the wheel of the range's granularity; where
    /// that is no constant-time plan, the cheapest of it, of the inverse
    /// landmark (for a group), and of the combined plan over the split
    /// range. Of two plans that cost the same, the earlier stands.
    fn create_exec_plan(&self, range: WheelRange) -> (plan: ExecutionPlan)
        requires
            self.wf(),
        ensures
            plan@ == best_plan::<A>(self@, self.conf_spec().optimizer, range),
    {
        let wheel_start = self.wheel_start();
        let start_ms: i128 = (range.start.unix_timestamp() as i128) * 1000;
        let end_ms: i128 = (range.end.unix_timestamp() as i128) * 1000;
        let mut best_plan = if start_ms <= wheel_start as i128 && end_ms >= self.watermark as i128 {
            ExecutionPlan::LandmarkAggregation
        } else {
            ExecutionPlan::WheelAggregation(self.wheel_aggregation_plan(range))
        };
        if best_plan.is_prefix_or_landmark() || range.duration().whole_seconds() < 1 {
            return best_plan;
        }
        if A::invertible() {
            match self.inverse_plan(range, wheel_start) {
                Some(gaps) => {
                    best_plan = best_plan.cheaper(ExecutionPlan::InverseLandmarkAggregation(gaps));
                },
                None => {},
            }
        }
        let combine = if self.conf.optimizer.hints() && A::simd_support() {
            best_plan.cost() > self.conf.optimizer.heuristics().simd_threshold()
        } else {
            true
        };
        if combine {
            let combined = self.combined_aggregation_plan(split_wheel_ranges(range));
            best_plan = best_plan.cheaper(ExecutionPlan::CombinedAggregation(combined));
        }
        best_plan
    }

    /// Executes a combined plan: combines what the wheels answer to its
    /// sub-ranges, in the order of the plan.
    fn combined_aggregation(&self, combined: &CombinedAggregation) -> (result: (
        Option<A::PartialAggregate>,
        usize,
    ))
        requires
            self.wf(),
        ensures
            result.0 == execute::<A>(
                self@,
                PlanView::CombinedAggregation(combined.aggregations@),
            ).0,
            result.1 == execute::<A>(
                self@,
                PlanView::CombinedAggregation(combined.aggregations@),
            ).1,
    {
        let cost = combined.cost();
        let mut result: Option<A::PartialAggregate> = None;
        let mut i: usize = 0;
        assert(combined.aggregations@.subrange(0, 0) =~= Seq::empty());
        while i < combined.aggregations.len()
            invariant
                self.wf(),
                0 <= i <= combined.aggregations@.len(),
                result == combined_result::<A>(self@, combined.aggregations@.subrange(0, i as int)),
            decreases combined.aggregations@.len() - i,
        {
            proof {
                assert(combined.aggregations@.subrange(0, i + 1).drop_last()
                    =~= combined.aggregations@.subrange(0, i as int));
            }
            match self.wheel_aggregation(combined.aggregations[i].range) {
                Some(partial) => {
                    combine_or_insert::<A>(&mut result, partial);
                },
                None => {},
            }
            i += 1;
        }
        assert(combined.aggregations@.subrange(0, combined.aggregations@.len() as int)
            =~= combined.aggregations@);
        (result, cost)
    }

    /// Executes an inverse landmark plan: takes what the wheels answer to
    /// each gap out of the landmark.
    fn inverse_landmark_aggregation(&self, gaps: &Vec<WheelAggregation>) -> (result: (
        A::PartialAggregate,
        usize,
    ))
        requires
            self.wf(),
            A::invertible_spec(),
        ensures
            Some(result.0) == execute::<A>(self@, PlanView::InverseLandmarkAggregation(gaps@)).0,
            result.1 == execute::<A>(self@, PlanView::InverseLandmarkAggregation(gaps@)).1,
    {
        let (landmark, landmark_cost) = self.analyze_landmark();
        let mut result = match landmark {
            Some(partial) => partial,
            None => A::identity(),
        };
        let mut i: usize = 0;
        assert(gaps@.subrange(0, 0) =~= Seq::empty());
        while i < gaps.len()
            invariant
                self.wf(),
                A::invertible_spec(),
                0 <= i <= gaps@.len(),
                result == inverse_result::<A>(self@, gaps@.subrange(0, i as int)),
            decreases gaps@.len() - i,
        {
            proof {
                assert(gaps@.subrange(0, i + 1).drop_last() =~= gaps@.subrange(0, i as int));
            }
            let gap = match self.wheel_aggregation(gaps[i].range) {
                Some(partial) => partial,
                None => A::identity(),
            };
            result = match A::combine_inverse(result, gap) {
                Some(rest) => rest,
                None => result,
            };
            i += 1;
        }
        assert(gaps@.subrange(0, gaps@.len() as int) =~= gaps@);
        (result, landmark_cost.saturating_add(total_cost(gaps)))
    }

    /// Plans and executes a range query.
    fn combine_range_inner(&self, range: WheelRange) -> (result: (
        Option<A::PartialAggregate>,
        usize,
    ))
        requires
            self.wf(),
            range.start.secs() < range.end.secs(),
        ensures
            result.0 == combine_range_of::<A>(self@, self.conf_spec().optimizer, range).0,
            result.1 == combine_range_of::<A>(self@, self.conf_spec().optimizer, range).1,
    {
        let plan = self.create_exec_plan(range);
        match plan {
            ExecutionPlan::WheelAggregation(aggregation) => (
                self.wheel_aggregation(aggregation.range),
                aggregation.cost(),
            ),
            ExecutionPlan::CombinedAggregation(combined) => self.combined_aggregation(&combined),
            ExecutionPlan::LandmarkAggregation => self.analyze_landmark(),
            ExecutionPlan::InverseLandmarkAggregation(gaps) => {
                let (result, cost) = self.inverse_landmark_aggregation(&gaps);
                (Some(result), cost)
            },
        }
    }

    /// Combines the partial aggregates of the seconds in `[start, end)`.
    /// The query is planned, then executed: by one wheel, by the landmark,
    /// by the landmark less what lies outside the range, or by several
    /// wheels over sub-ranges. `None` where the plan finds no data.
    pub fn combine_range(&self, range: WheelRange) -> (result: Option<A::PartialAggregate>)
        requires
            self.wf(),
            range.start.secs() < range.end.secs(),
        ensures
            result == combine_range_of::<A>(self@, self.conf_spec().optimizer, range).0,
    {
        self.combine_range_inner(range).0
    }

    /// As `combine_range`, for any range: a range that is empty or
    /// reversed is turned down as invalid.
    pub fn try_combine_range(&self, range: WheelRange) -> (result: Result<
        Option<A::PartialAggregate>,
        QueryError,
    >)
        requires
            self.wf(),
        ensures
            range.start.secs() >= range.end.secs() ==> result == Err::<
                Option<A::PartialAggregate>,
                QueryError,
            >(QueryError::Invalid),
            range.start.secs() < range.end.secs() ==> result == Ok::<
                Option<A::PartialAggregate>,
                QueryError,
            >(combine_range_of::<A>(self@, self.conf_spec().optimizer, range).0),
    {
        if range.start.unix_timestamp() >= range.end.unix_timestamp() {
            Err(QueryError::Invalid)
        } else {
            Ok(self.combine_range(range))
        }
    }

    /// As `combine_range`, with the combines that the plan is charged.
    pub fn analyze_combine_range(&self, range: WheelRange) -> (result: (
        Option<A::PartialAggregate>,
        usize,
    ))
        requires
            self.wf(),
            range.start.secs() < range.end.secs(),
        ensures
            result.0 == combine_range_of::<A>(self@, self.conf_spec().optimizer, range).0,
            result.1 == combine_range_of::<A>(self@, self.conf_spec().optimizer, range).1,
    {
        self.combine_range_inner(range)
    }

    /// As `combine_range`, lowered.
    pub fn combine_range_and_lower(&self, range: WheelRange) -> (result: Option<A::Aggregate>)
        requires
            self.wf(),
            range.start.secs() < range.end.secs(),
        ensures
            result == match combine_range_of::<A>(self@, self.conf_spec().optimizer, range).0 {
                Some(partial) => Some(A::lower_spec(partial)),
                None => None,
            },
    {
        match self.combine_range(range) {
            Some(partial) => Some(A::lower(partial)),
            None => None,
        }
    }

    /// The plan that `combine_range` executes for a range.
    pub fn explain_combine_range(&self, range: WheelRange) -> (plan: Option<ExecutionPlan>)
        requires
            self.wf(),
        ensures
            plan matches Some(p) && p@ == best_plan::<A>(
                self@,
                self.conf_spec().optimizer,
                range,
            ),
    {
        Some(self.create_exec_plan(range))
    }

    /// The range of the last `seconds` seconds before the watermark; `None`
    /// where it is empty or one of its ends is no date of the calendar.
    pub open spec fn interval_range(self, seconds: int) -> Option<WheelRange> {
        if seconds >= 1 && in_calendar(self@.watermark as int / 1000) && in_calendar(
            self@.watermark as int / 1000 - seconds,
        ) {
            Some(
                WheelRange {
                    start: DateTime::at(self@.watermark as int / 1000 - seconds),
                    end: DateTime::at(self@.watermark as int / 1000),
                },
            )
        } else {
            None
        }
    }

    /// What `interval` answers for a span of `seconds` whole seconds, and
    /// the combines that it is charged.
    pub open spec fn interval_of(self, seconds: int) -> (Option<A::PartialAggregate>, int) {
        match self.interval_range(seconds) {
            Some(range) => combine_range_of::<A>(self@, self.conf_spec().optimizer, range),
            None => (None, 0),
        }
    }

    /// Combines the partial aggregates of the last whole seconds of `dur`
    /// before the watermark, and tells the combines charged. Nothing, at
    /// no cost, where the span is shorter than a second or reaches out of
    /// the calendar.
    pub fn interval_with_stats(&self, dur: Duration) -> (result: (
        Option<A::PartialAggregate>,
        usize,
    ))
        requires
            self.wf(),
        ensures
            result.0 == self.interval_of(dur.as_secs()).0,
            result.1 == self.interval_of(dur.as_secs()).1,
    {
        let seconds: i64 = dur.whole_seconds();
        if seconds < 1 {
            return (None, 0);
        }
        let to = match DateTime::from_unix_timestamp((self.watermark / 1000) as i64) {
            Some(date) => date,
            None => {
                return (None, 0);
            },
        };
        let from = match to.checked_add_seconds(-seconds) {
            Some(date) => date,
            None => {
                return (None, 0);
            },
        };
        self.analyze_combine_range(WheelRange::new(from, to))
    }

    /// Combines the partial aggregates of the last whole seconds of `dur`
    /// before the watermark.
    pub fn interval(&self, dur: Duration) -> (result: Option<A::PartialAggregate>)
        requires
            self.wf(),
        ensures
            result == self.interval_of(dur.as_secs()).0,
    {
        self.interval_with_stats(dur).0
    }

    /// As `interval`, lowered.
    pub fn interval_and_lower(&self, dur: Duration) -> (result: Option<A::Aggregate>)
        requires
            self.wf(),
        ensures
            result == match self.interval_of(dur.as_secs()).0 {
                Some(partial) => Some(A::lower_spec(partial)),
                None => None,
            },
    {
        match self.interval(dur) {
            Some(partial) => Some(A::lower(partial)),
            None => None,
        }
    }

    /// The seconds wheel, where it is allocated.
    pub fn seconds(&self) -> (wheel: Option<&AggregationWheel<A>>)
        requires
            self.wf(),
        ensures
            wheel is Some == self@.seconds.wheel is Some,
            wheel matches Some(w) ==> w.wf() && Some(w@) == self@.seconds.wheel,
    {
        self.seconds_wheel.as_ref()
    }

    /// The seconds wheel, which the caller knows to be allocated.
    pub fn seconds_unchecked(&self) -> (wheel: &AggregationWheel<A>)
        requires
            self.wf(),
            self@.seconds.wheel is Some,
        ensures
            wheel.wf(),
            Some(wheel@) == self@.seconds.wheel,
    {
        match self.seconds_wheel.as_ref() {
            Some(wheel) => wheel,
            None => vstd::pervasive::unreached(),
        }
    }

    /// The minutes wheel, where it is allocated.
    pub fn minutes(&self) -> (wheel: Option<&AggregationWheel<A>>)
        requires
            self.wf(),
        ensures
            wheel is Some == self@.minutes.wheel is Some,
            wheel matches Some(w) ==> w.wf() && Some(w@) == self@.minutes.wheel,
    {
        self.minutes_wheel.as_ref()
    }

    /// The minutes wheel, which the caller knows to be allocated.
    pub fn minutes_unchecked(&self) -> (wheel: &AggregationWheel<A>)
        requires
            self.wf(),
            self@.minutes.wheel is Some,
        ensures
            wheel.wf(),
            Some(wheel@) == self@.minutes.wheel,
    {
        match self.minutes_wheel.as_ref() {
            Some(wheel) => wheel,
            None => vstd::pervasive::unreached(),
        }
    }

    /// The hours wheel, where it is allocated.
    pub fn hours(&self) -> (wheel: Option<&AggregationWheel<A>>)
        requires
            self.wf(),
        ensures
            wheel is Some == self@.hours.wheel is Some,
            wheel matches Some(w) ==> w.wf() && Some(w@) == self@.hours.wheel,
    {
        self.hours_wheel.as_ref()
    }

    /// The hours wheel, which the caller knows to be allocated.
    pub fn hours_unchecked(&self) -> (wheel: &AggregationWheel<A>)
        requires
            self.wf(),
            self@.hours.wheel is Some,
        ensures
            wheel.wf(),
            Some(wheel@) == self@.hours.wheel,
    {
        match self.hours_wheel.as_ref() {
            Some(wheel) => wheel,
            None => vstd::pervasive::unreached(),
        }
    }

    /// The days wheel, where it is allocated.
    pub fn days(&self) -> (wheel: Option<&AggregationWheel<A>>)
        requires
            self.wf(),
        ensures
            wheel is Some == self@.days.wheel is Some,
            wheel matches Some(w) ==> w.wf() && Some(w@) == self@.days.wheel,
    {
        self.days_wheel.as_ref()
    }

    /// The days wheel, which the caller knows to be allocated.
    pub fn days_unchecked(&self) -> (wheel: &AggregationWheel<A>)
        requires
            self.wf(),
            self@.days.wheel is Some,
        ensures
            wheel.wf(),
            Some(wheel@) == self@.days.wheel,
    {
        match self.days_wheel.as_ref() {
            Some(wheel) => wheel,
            None => vstd::pervasive::unreached(),
        }
    }

    /// The weeks wheel, where it is allocated.
    pub fn weeks(&self) -> (wheel: Option<&AggregationWheel<A>>)
        requires
            self.wf(),
        ensures
            wheel is Some == self@.weeks.wheel is Some,
            wheel matches Some(w) ==> w.wf() && Some(w@) == self@.weeks.wheel,
    {
        self.weeks_wheel.as_ref()
    }

    /// The weeks wheel, which the caller knows to be allocated.
    pub fn weeks_unchecked(&self) -> (wheel: &AggregationWheel<A>)
        requires
            self.wf(),
            self@.weeks.wheel is Some,
        ensures
            wheel.wf(),
            Some(wheel@) == self@.weeks.wheel,
    {
        match self.weeks_wheel.as_ref() {
            Some(wheel) => wheel,
            None => vstd::pervasive::unreached(),
        }
    }

    /// The years wheel, where it is allocated.
    pub fn years(&self) -> (wheel: Option<&AggregationWheel<A>>)
        requires
            self.wf(),
        ensures
            wheel is Some == self@.years.wheel is Some,
            wheel matches Some(w) ==> w.wf() && Some(w@) == self@.years.wheel,
    {
        self.years_wheel.as_ref()
    }

    /// The years wheel, which the caller knows to be allocated.
    pub fn years_unchecked(&self) -> (wheel: &AggregationWheel<A>)
        requires
            self.wf(),
            self@.years.wheel is Some,
        ensures
            wheel.wf(),
            Some(wheel@) == self@.years.wheel,
    {
        match self.years_wheel.as_ref() {
            Some(wheel) => wheel,
            None => vstd::pervasive::unreached(),
        }
    }

    /// Splits a range into sub-ranges that each lie in one wheel, in order
    /// of time.
    pub fn split_wheel_ranges(range: WheelRange) -> (ranges: Vec<WheelRange>)
        ensures
            ranges@ == split_ranges(range),
    {
        split_wheel_ranges(range)
    }

    /// The date and time of a time in milliseconds; `None` past the calendar.
    fn to_offset_date(ts: u64) -> (date: Option<DateTime>)
        ensures
            date is Some == in_calendar(ts as int / 1000),
            date matches Some(d) ==> d == DateTime::at(ts as int / 1000) && d.secs() == ts / 1000,
    {
        DateTime::from_unix_timestamp((ts / 1000) as i64)
    }

    /// Queries the pair of `pair_len` milliseconds that ends at the
    /// watermark.
    fn pair(&self, pair_len: usize) -> (pair: A::PartialAggregate)
        requires
            self.wf(),
        ensures
            pair == pair_value::<A>(self@, self.conf_spec().optimizer, pair_len),
    {
        let to = match Self::to_offset_date(self.watermark) {
            Some(date) => date,
            None => {
                return A::identity();
            },
        };
        let begin: u64 = if self.watermark >= pair_len as u64 {
            self.watermark - pair_len as u64
        } else {
            0
        };
        let from = match Self::to_offset_date(begin) {
            Some(date) => date,
            None => {
                return A::identity();
            },
        };
        if from.unix_timestamp() >= to.unix_timestamp() {
            return A::identity();
        }
        match self.combine_range(WheelRange::new(from, to)) {
            Some(partial) => partial,
            None => A::identity(),
        }
    }

    /// Steps the sliding window, where one is installed, after a tick:
    /// counts the tick and, where it completes a pair, queries the pair and
    /// takes it in; a window that is then due is appended to `windows`.
    fn handle_window_maybe(&mut self, windows: &mut Vec<(u64, A::PartialAggregate)>)
        requires
            old(self).wf(),
        ensures
            final(self).wf(),
            final(self)@ == old(self)@,
            final(self).history() == old(self).history(),
            final(self).consistent() == old(self).consistent(),
            final(self).conf_spec() == old(self).conf_spec(),
            final(self).delta_spec() == old(self).delta_spec(),
            final(self).frequencies_spec() == old(self).frequencies_spec(),
            match old(self).window_spec() {
                Some(window) => {
                    let result = window_stepped::<A>(
                        old(self)@,
                        old(self).conf_spec().optimizer,
                        window,
                    );
                    &&& final(self).window_spec() == Some(result.0)
                    &&& final(windows)@ == match result.1 {
                        Some(due) => old(windows)@.push(due),
                        None => old(windows)@,
                    }
                },
                None => final(self).window_spec() is None && final(windows)@ == old(windows)@,
            },
    {
        let mut manager = match self.window_manager.take() {
            Some(manager) => manager,
            None => {
                return ;
            },
        };
        match manager.on_tick() {
            Some(pair_len) => {
                let pair = self.pair(pair_len);
                match manager.complete_pair(self.watermark, pair) {
                    Some(due) => {
                        windows.push(due);
                    },
                    None => {},
                }
            },
            None => {},
        }
        self.window_manager = Some(manager);
    }

    /// Moves the watermark on by the whole seconds of `duration`. For each
    /// second the writer hands on its slot, which is frozen, logged where
    /// deltas are kept, and ticked into the wheels; then the sliding
    /// window is stepped. The windows that came due are handed back. A
    /// duration that is negative or longer than a full cycle clears the
    /// wheels instead and leaves the watermark and the writer as they are.
    pub fn advance(&mut self, duration: Duration, waw: &mut WriterWheel<A>) -> (windows: Vec<
        (u64, A::PartialAggregate),
    >)
        requires
            old(self).wf(),
            old(waw).wf(),
            0 <= duration.as_secs() <= CYCLE_LENGTH_SECS ==> old(self)@.watermark
                + duration.as_secs() * 1000 <= u64::MAX && old(waw)@.watermark
                + duration.as_secs() * 1000 <= u64::MAX,
        ensures
            final(self).wf(),
            final(waw).wf(),
            final(waw).aggregator_spec() == old(waw).aggregator_spec(),
            final(self)@.watermark >= old(self)@.watermark,
            final(waw)@.watermark - old(waw)@.watermark == final(self)@.watermark
                - old(self)@.watermark,
            final(self).frequencies_spec() == old(self).frequencies_spec(),
            0 <= duration.as_secs() <= CYCLE_LENGTH_SECS ==> {
                &&& final(self).state() == advanced::<A>(
                    old(self).state(),
                    old(waw)@,
                    duration.as_secs() as nat,
                ).0
                &&& final(waw)@ == advanced::<A>(
                    old(self).state(),
                    old(waw)@,
                    duration.as_secs() as nat,
                ).1
                &&& windows@ == advanced::<A>(
                    old(self).state(),
                    old(waw)@,
                    duration.as_secs() as nat,
                ).2
                &&& final(self)@.watermark == old(self)@.watermark + duration.as_secs() * 1000
                &&& final(self).history().len() == old(self).history().len()
                    + duration.as_secs()
                &&& (old(self).consistent() ==> final(self).consistent())
            },
            !(0 <= duration.as_secs() <= CYCLE_LENGTH_SECS) ==> {
                &&& final(self).state() == (HawState {
                    view: cleared_view(old(self)@),
                    history: Seq::empty(),
                    ..old(self).state()
                })
                &&& final(self).consistent()
                &&& final(waw)@ == old(waw)@
                &&& windows@ == Seq::<(u64, A::PartialAggregate)>::empty()
            },
    {
        let seconds: i64 = duration.whole_seconds();
        let mut windows: Vec<(u64, A::PartialAggregate)> = Vec::new();
        if seconds < 0 || seconds as u64 > CYCLE_LENGTH_SECS {
            self.clear();
            return windows;
        }
        let ticks: u64 = seconds as u64;
        let mut i: u64 = 0;
        while i < ticks
            invariant
                0 <= i <= ticks,
                ticks <= CYCLE_LENGTH_SECS,
                self.wf(),
                waw.wf(),
                waw.aggregator_spec() == old(waw).aggregator_spec(),
                old(self)@.watermark + ticks * 1000 <= u64::MAX,
                old(waw)@.watermark + ticks * 1000 <= u64::MAX,
                self@.watermark == old(self)@.watermark + i * 1000,
                self.history().len() == old(self).history().len() + i,
                waw@.watermark == old(waw)@.watermark + i * 1000,
                self.frequencies_spec() == old(self).frequencies_spec(),
                self.state() == advanced::<A>(old(self).state(), old(waw)@, i as nat).0,
                waw@ == advanced::<A>(old(self).state(), old(waw)@, i as nat).1,
                windows@ == advanced::<A>(old(self).state(), old(waw)@, i as nat).2,
                old(self).consistent() ==> self.consistent(),
            decreases ticks - i,
        {
            let delta = match waw.tick() {
                Some(acc) => Some(A::freeze(acc)),
                None => None,
            };
            self.tick(delta, &mut windows);
            i += 1;
        }
        windows
    }

    /// Moves the watermark on to `watermark`, by whole seconds; not at all
    /// where it lies at or before the watermark that is.
    pub fn advance_to(&mut self, watermark: u64, waw: &mut WriterWheel<A>) -> (windows: Vec<
        (u64, A::PartialAggregate),
    >)
        requires
            old(self).wf(),
            old(waw).wf(),
            watermark >= old(self)@.watermark ==> old(waw)@.watermark + (watermark - old(
                self,
            )@.watermark) <= u64::MAX,
        ensures
            final(self).wf(),
            final(waw).wf(),
            final(waw).aggregator_spec() == old(waw).aggregator_spec(),
            final(self)@.watermark >= old(self)@.watermark,
            final(waw)@.watermark - old(waw)@.watermark == final(self)@.watermark
                - old(self)@.watermark,
            final(self).frequencies_spec() == old(self).frequencies_spec(),
            Self::ticks_to(old(self)@.watermark, watermark) <= CYCLE_LENGTH_SECS ==> {
                &&& final(self).state() == advanced::<A>(
                    old(self).state(),
                    old(waw)@,
                    Self::ticks_to(old(self)@.watermark, watermark),
                ).0
                &&& final(waw)@ == advanced::<A>(
                    old(self).state(),
                    old(waw)@,
                    Self::ticks_to(old(self)@.watermark, watermark),
                ).1
                &&& windows@ == advanced::<A>(
                    old(self).state(),
                    old(waw)@,
                    Self::ticks_to(old(self)@.watermark, watermark),
                ).2
                &&& (old(self).consistent() ==> final(self).consistent())
            },
            Self::ticks_to(old(self)@.watermark, watermark) > CYCLE_LENGTH_SECS ==> {
                &&& final(self).state() == (HawState {
                    view: cleared_view(old(self)@),
                    history: Seq::empty(),
                    ..old(self).state()
                })
                &&& final(self).consistent()
                &&& final(waw)@ == old(waw)@
                &&& windows@ == Seq::<(u64, A::PartialAggregate)>::empty()
            },
    {
        let diff: u64 = watermark.saturating_sub(self.watermark);
        if diff > i64::MAX as u64 {
            self.clear();
            return Vec::new();
        }
        self.advance(Duration::milliseconds(diff as i64), waw)
    }

    /// Whole seconds from one watermark to a later one; none to an earlier.
    pub open spec fn ticks_to(from: u64, to: u64) -> nat {
        if to >= from {
            ((to - from) / 1000) as nat
        } else {
            0
        }
    }

    /// Moves the watermark on by `seconds` seconds in which nothing comes
    /// in, as an advance with an empty writer does.
    fn advance_idle(&mut self, seconds: u64)
        requires
            old(self).wf(),
            old(self)@.watermark + seconds * 1000 <= u64::MAX,
        ensures
            final(self).wf(),
            final(self).state() == idled::<A>(old(self).state(), seconds as nat),
            final(self)@.watermark == old(self)@.watermark + seconds * 1000,
            final(self).frequencies_spec() == old(self).frequencies_spec(),
            old(self).consistent() ==> final(self).consistent(),
    {
        let mut windows: Vec<(u64, A::PartialAggregate)> = Vec::new();
        let mut i: u64 = 0;
        while i < seconds
            invariant
                0 <= i <= seconds,
                self.wf(),
                old(self)@.watermark + seconds * 1000 <= u64::MAX,
                self@.watermark == old(self)@.watermark + i * 1000,
                self.frequencies_spec() == old(self).frequencies_spec(),
                self.state() == idled::<A>(old(self).state(), i as nat),
                old(self).consistent() ==> self.consistent(),
            decreases seconds - i,
        {
            self.tick(None, &mut windows);
            i += 1;
        }
    }

    /// Moves the watermark on to `watermark` with nothing coming in; where
    /// that is more than a full cycle away, clears the wheels instead.
    fn catch_up(&mut self, watermark: u64)
        requires
            old(self).wf(),
            watermark >= old(self)@.watermark,
        ensures
            final(self).wf(),
            final(self).state() == Self::caught_up(old(self).state(), watermark),
            final(self).frequencies_spec() == old(self).frequencies_spec(),
            old(self)@.watermark <= final(self)@.watermark <= watermark,
    {
        let seconds: u64 = (watermark - self.watermark) / 1000;
        if seconds <= CYCLE_LENGTH_SECS {
            self.advance_idle(seconds);
        } else {
            self.clear();
        }
    }

    /// A hierarchy brought up to a later watermark with nothing coming in:
    /// ticked through the whole seconds in between where they make up a
    /// full cycle at most, else cleared.
    pub open spec fn caught_up(state: HawState<A::PartialAggregate>, watermark: u64) -> HawState<
        A::PartialAggregate,
    > {
        if Self::ticks_to(state.view.watermark, watermark) <= CYCLE_LENGTH_SECS {
            idled::<A>(state, Self::ticks_to(state.view.watermark, watermark))
        } else {
            HawState { view: cleared_view(state.view), history: Seq::empty(), ..state }
        }
    }

    /// Merges another hierarchy into this one. The one whose watermark is
    /// behind is first brought up to the other with nothing coming in; then
    /// each wheel takes in the slots of its counterpart, slot by slot from
    /// the newest, where both are allocated.
    pub fn merge(&mut self, other: &mut Self)
        requires
            old(self).wf(),
            old(other).wf(),
        ensures
            final(self).wf(),
            final(other).wf(),
            final(self)@.watermark >= old(self)@.watermark,
            final(other)@.watermark >= old(other)@.watermark,
            old(self)@.watermark > old(other)@.watermark ==> {
                &&& final(other).state() == Self::caught_up(
                    old(other).state(),
                    old(self)@.watermark,
                )
                &&& final(self).state() == (HawState {
                    view: merged_view::<A>(old(self)@, final(other)@),
                    ..old(self).state()
                })
            },
            old(self)@.watermark <= old(other)@.watermark ==> {
                &&& final(other).state() == old(other).state()
                &&& final(self).state() == (HawState {
                    view: merged_view::<A>(
                        Self::caught_up(old(self).state(), old(other)@.watermark).view,
                        old(other)@,
                    ),
                    ..Self::caught_up(old(self).state(), old(other)@.watermark)
                })
            },
    {
        if self.watermark > other.watermark {
            other.catch_up(self.watermark);
            assert(self.state() == old(self).state());
        } else {
            self.catch_up(other.watermark);
            assert(other.state() == old(other).state());
        }
        let ghost aligned = self.state();
        let ghost theirs = other@;
        self.merge_wheels(other);
        assert(self.state() == (HawState {
            view: merged_view::<A>(aligned.view, theirs),
            ..aligned
        }));
    }

    /// Merges the wheels of `other` into the wheels of this hierarchy.
    fn merge_wheels(&mut self, other: &Self)
        requires
            old(self).wf(),
            other.wf(),
        ensures
            final(self).wf(),
            final(self).state() == (HawState {
                view: merged_view::<A>(old(self)@, other@),
                ..old(self).state()
            }),
    {
        proof {
            reveal(wheels_in_shape);
            reveal(wheels_hold);
        }
        proof {
            let history = self.history@;
            let start_ms = self@.watermark - history.len() * 1000;
            let mine = self@;
            let theirs = other@;
            lemma_merge_keeps_shape::<A>(mine.seconds, theirs.seconds, history, start_ms, 1, SECONDS);
            lemma_merge_keeps_shape::<A>(mine.minutes, theirs.minutes, history, start_ms, 60, MINUTES);
            lemma_merge_keeps_shape::<A>(mine.hours, theirs.hours, history, start_ms, 3600, HOURS);
            lemma_merge_keeps_shape::<A>(mine.days, theirs.days, history, start_ms, 86_400, DAYS);
            lemma_merge_keeps_shape::<A>(mine.weeks, theirs.weeks, history, start_ms, 604_800, WEEKS);
            lemma_merge_keeps_shape::<A>(
                mine.years,
                theirs.years,
                history,
                start_ms,
                31_449_600,
                YEARS,
            );
        }
        self.seconds_wheel.merge(&other.seconds_wheel);
        self.minutes_wheel.merge(&other.minutes_wheel);
        self.hours_wheel.merge(&other.hours_wheel);
        self.days_wheel.merge(&other.days_wheel);
        self.weeks_wheel.merge(&other.weeks_wheel);
        self.years_wheel.merge(&other.years_wheel);
    }

    /// Switches the wheels from seconds to days to the prefix layout. What
    /// the wheels hold stays as it is.
    pub fn convert_all_to_prefix(&mut self)
        requires
            old(self).wf(),
            A::invertible_spec(),
            old(self)@.seconds.wheel is Some,
            old(self)@.minutes.wheel is Some,
            old(self)@.hours.wheel is Some,
            old(self)@.days.wheel is Some,
        ensures
            final(self).wf(),
            final(self).state() == (HawState {
                view: converted_view(old(self)@, DataLayout::Prefix),
                ..old(self).state()
            }),
            old(self).consistent() ==> final(self).consistent(),
    {
        proof {
            reveal(wheels_in_shape);
            reveal(wheels_hold);
        }
        self.seconds_wheel.to_prefix_array();
        self.minutes_wheel.to_prefix_array();
        self.hours_wheel.to_prefix_array();
        self.days_wheel.to_prefix_array();
    }

    /// Switches the wheels from seconds to days to the array layout. What
    /// the wheels hold stays as it is.
    pub fn convert_all_to_array(&mut self)
        requires
            old(self).wf(),
            old(self)@.seconds.wheel is Some,
            old(self)@.minutes.wheel is Some,
            old(self)@.hours.wheel is Some,
            old(self)@.days.wheel is Some,
        ensures
            final(self).wf(),
            final(self).state() == (HawState {
                view: converted_view(old(self)@, DataLayout::Array),
                ..old(self).state()
            }),
            old(self).consistent() ==> final(self).consistent(),
    {
        proof {
            reveal(wheels_in_shape);
            reveal(wheels_hold);
        }
        self.seconds_wheel.to_array();
        self.minutes_wheel.to_array();
        self.hours_wheel.to_array();
        self.days_wheel.to_array();
    }

    /// Bytes that the wheels take up, capped at the largest `usize`.
    pub fn size_bytes(&self) -> (bytes: usize)
        requires
            self.wf(),
        ensures
            bytes == size_of_view::<A>(self@),
    {
        let secs = self.seconds_wheel.size_bytes();
        let min = self.minutes_wheel.size_bytes();
        let hr = self.hours_wheel.size_bytes();
        let day = self.days_wheel.size_bytes();
        let week = self.weeks_wheel.size_bytes();
        let year = self.years_wheel.size_bytes();
        secs.saturating_add(min).saturating_add(hr).saturating_add(day).saturating_add(
            week,
        ).saturating_add(year)
    }

    /// Slots that a wheel aggregation over `range` visits: its length in
    /// slots of its granularity, none for a reversed range.
    pub open spec fn visited(range: WheelRange) -> int {
        if range.slots() < 0 {
            0
        } else {
            capped(range.slots())
        }
    }

    /// The statistics after a wheel aggregation over `range` has been
    /// recorded: the slots visited are added to the wheel of the range's
    /// granularity, once for the seconds wheel and twice for the others.
    pub open spec fn recorded(frequencies: WheelFrequencies, range: WheelRange)
        -> WheelFrequencies {
        let once = frequencies.added(range.granularity(), Self::visited(range));
        if range.granularity() == Granularity::Second {
            once
        } else {
            once.added(range.granularity(), Self::visited(range))
        }
    }

    /// Records a wheel aggregation over `range` in the access statistics.
    /// Queries do not record by themselves: they leave the hierarchy as it
    /// is.
    pub fn record_access(&mut self, range: WheelRange)
        ensures
            final(self).frequencies_spec() == Self::recorded(old(self).frequencies_spec(), range),
            final(self).state() == old(self).state(),
            final(self).wf() == old(self).wf(),
            final(self).consistent() == old(self).consistent(),
    {
        let granularity = range.lowest_granularity();
        let slots: i64 = range.scan_estimation();
        let visited: usize = if slots < 0 {
            0
        } else if slots as u64 > usize::MAX as u64 {
            usize::MAX
        } else {
            slots as usize
        };
        match granularity {
            Granularity::Second => {},
            _ => {
                self.frequencies.add(granularity, visited);
            },
        }
        self.frequencies.add(granularity, visited);
    }

    /// The access statistics.
    pub fn frequencies(&self) -> (frequencies: WheelFrequencies)
        ensures
            frequencies == self.frequencies_spec(),
    {
        self.frequencies
    }

    /// The watermark in milliseconds.
    pub fn watermark(&self) -> (watermark: u64)
        ensures
            watermark == self@.watermark,
    {
        self.watermark
    }
}

} // verus!
