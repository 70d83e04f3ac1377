use crate::aggregator::Aggregator;
use crate::conf::DataLayout;
use crate::conf::DAY_AS_SECS;
use crate::conf::DAYS;
use crate::conf::HawConf;
use crate::conf::HOUR_AS_SECS;
use crate::conf::HOURS;
use crate::conf::MINUTE_AS_SECS;
use crate::conf::MINUTES;
use crate::conf::Optimizer;
use crate::conf::SECONDS;
use crate::conf::TOTAL_SECS_IN_WHEEL;
use crate::conf::WEEK_AS_SECS;
use crate::conf::WEEKS;
use crate::conf::WheelConf;
use crate::conf::YEAR_AS_SECS;
use crate::conf::YEARS;
use crate::datetime::DateTime;
use crate::datetime::in_calendar;
use crate::maybe::maybe_merged;
use crate::maybe::maybe_size;
use crate::maybe::MaybeView;
use crate::model::expected;
use crate::model::lemma_expected_well_formed;
use crate::model::same_shape;
use crate::plan::capped;
use crate::query::combine_range_of;
use crate::query::or_identity;
use crate::range::WheelRange;
use crate::wheel::inserted_head;
use crate::wheel::rollup;
use crate::wheel::ticked;
use crate::window::pairs_after;
use crate::window::window_due;
use crate::window::WindowState;
use crate::window::WindowView;
use crate::writer::WriterView;
use vstd::prelude::*;

verus! {

/// What a hierarchy of wheels is, as far as queries can tell: its
/// watermark and its six wheels.
pub struct HawView<P> {
    pub watermark: u64,
    pub seconds: MaybeView<P>,
    pub minutes: MaybeView<P>,
    pub hours: MaybeView<P>,
    pub days: MaybeView<P>,
    pub weeks: MaybeView<P>,
    pub years: MaybeView<P>,
}

impl<P> HawView<P> {
    /// Seconds that the wheels have turned since the hierarchy last stood
    /// at the start of a cycle, told from the positions of the wheels.
    pub open spec fn cycle_secs(self) -> int {
        self.seconds.rotation_count() + self.minutes.rotation_count() * MINUTE_AS_SECS
            + self.hours.rotation_count() * HOUR_AS_SECS + self.days.rotation_count()
            * DAY_AS_SECS + self.weeks.rotation_count() * WEEK_AS_SECS
            + self.years.rotation_count() * YEAR_AS_SECS
    }

    /// Slots in use over all wheels.
    pub open spec fn len(self) -> nat {
        self.seconds.len() + self.minutes.len() + self.hours.len() + self.days.len()
            + self.weeks.len() + self.years.len()
    }

    /// Time at which the cycle under way began, in milliseconds; zero where
    /// that would lie before the epoch.
    pub open spec fn wheel_start(self) -> int {
        if self.watermark >= self.cycle_secs() * 1000 {
            self.watermark - self.cycle_secs() * 1000
        } else {
            0
        }
    }
}

/// A wheel after a tick of the hierarchy, and what it hands upward. Where
/// the wheel below has rolled up, that goes into the open slot (combined
/// into it for the seconds wheel, written over it for the others) and the
/// wheel is ticked. Else the wheel stays as it is and hands nothing on.
pub open spec fn stepped<A: Aggregator>(
    wheel: MaybeView<A::PartialAggregate>,
    rolled: Option<A::PartialAggregate>,
    into_head: bool,
) -> (MaybeView<A::PartialAggregate>, Option<A::PartialAggregate>) {
    match rolled {
        Some(partial) => {
            let written = if into_head {
                inserted_head::<A>(wheel.allocated(), partial)
            } else {
                wheel.allocated().insert_slot(partial)
            };
            (
                MaybeView { conf: wheel.conf, wheel: Some(ticked::<A>(written)) },
                rollup::<A>(written),
            )
        },
        None => (wheel, None),
    }
}

/// The six wheels after a tick that inserts `partial`: the watermark has
/// moved on by a second, and each wheel has been stepped with what the
/// wheel below rolled up.
pub open spec fn ticked_view<A: Aggregator>(
    view: HawView<A::PartialAggregate>,
    partial: A::PartialAggregate,
) -> HawView<A::PartialAggregate> {
    let seconds = stepped::<A>(view.seconds, Some(partial), true);
    let minutes = stepped::<A>(view.minutes, seconds.1, false);
    let hours = stepped::<A>(view.hours, minutes.1, false);
    let days = stepped::<A>(view.days, hours.1, false);
    let weeks = stepped::<A>(view.weeks, days.1, false);
    let years = stepped::<A>(view.years, weeks.1, false);
    HawView {
        watermark: (view.watermark + 1000) as u64,
        seconds: seconds.0,
        minutes: minutes.0,
        hours: hours.0,
        days: days.0,
        weeks: weeks.0,
        years: years.0,
    }
}

/// All that a hierarchy is: its wheels, what has been ticked into them,
/// the log of deltas, the sliding window, and its configuration.
pub struct HawState<P> {
    pub view: HawView<P>,
    /// What each tick has inserted since the hierarchy was made or cleared
    pub history: Seq<P>,
    pub deltas: Seq<Option<P>>,
    pub window: Option<WindowView<P>>,
    pub conf: HawConf,
}

/// The range of the pair of `pair_len` milliseconds that ends at the
/// watermark; `None` where its ends fall into the same second or the
/// watermark lies past the calendar.
pub open spec fn pair_range(watermark: u64, pair_len: usize) -> Option<WheelRange> {
    let to = watermark as int / 1000;
    let from = if watermark >= pair_len {
        (watermark - pair_len) / 1000
    } else {
        0
    };
    if in_calendar(to) && from < to {
        Some(WheelRange { start: DateTime::at(from), end: DateTime::at(to) })
    } else {
        None
    }
}

/// The partial aggregate of the pair that ends at the watermark: what a
/// range query answers for it, or the identity.
pub open spec fn pair_value<A: Aggregator>(
    view: HawView<A::PartialAggregate>,
    optimizer: Optimizer,
    pair_len: usize,
) -> A::PartialAggregate {
    match pair_range(view.watermark, pair_len) {
        Some(range) => or_identity::<A>(combine_range_of::<A>(view, optimizer, range).0),
        None => A::identity_spec(),
    }
}

/// The sliding window after a tick of the hierarchy, and the window that
/// is due with it. The tick is counted; where it completes the pair under
/// way, the pair is queried and taken in, the next pair begins, and where
/// the watermark has reached the end of a window, the combination of the
/// pairs held is due and the oldest pair is dropped.
pub open spec fn window_stepped<A: Aggregator>(
    view: HawView<A::PartialAggregate>,
    optimizer: Optimizer,
    window: WindowView<A::PartialAggregate>,
) -> (WindowView<A::PartialAggregate>, Option<(u64, A::PartialAggregate)>) {
    if window.state.pair_ticks_remaining == 1 {
        let pair = pair_value::<A>(view, optimizer, window.state.current_pair_len);
        (
            WindowView {
                state: window.state.after_pair(view.watermark),
                pairs: pairs_after(window, view.watermark, pair),
            },
            window_due::<A>(window, view.watermark, pair),
        )
    } else {
        (
            WindowView {
                state: WindowState {
                    pair_ticks_remaining: (window.state.pair_ticks_remaining - 1) as usize,
                    ..window.state
                },
                ..window
            },
            None,
        )
    }
}

/// The frozen content of a write-ahead slot.
pub open spec fn frozen<A: Aggregator>(slot: Option<A::MutablePartialAggregate>) -> Option<
    A::PartialAggregate,
> {
    match slot {
        Some(acc) => Some(A::freeze_spec(acc)),
        None => None,
    }
}

/// A hierarchy after a second in which `delta` came in, and the window
/// that is due with it: the delta is logged where deltas are kept and
/// ticked into the wheels; then the sliding window, where there is one, is
/// stepped.
pub open spec fn second_with<A: Aggregator>(
    state: HawState<A::PartialAggregate>,
    delta: Option<A::PartialAggregate>,
) -> (HawState<A::PartialAggregate>, Option<(u64, A::PartialAggregate)>) {
    let view = ticked_view::<A>(state.view, delta_value::<A>(delta));
    let stepped = match state.window {
        Some(window) => Some(window_stepped::<A>(view, state.conf.optimizer, window)),
        None => None,
    };
    (
        HawState {
            view,
            history: state.history.push(delta_value::<A>(delta)),
            deltas: if state.conf.generate_deltas {
                state.deltas.push(delta)
            } else {
                state.deltas
            },
            window: match stepped {
                Some(result) => Some(result.0),
                None => None,
            },
            conf: state.conf,
        },
        match stepped {
            Some(result) => result.1,
            None => None,
        },
    )
}

/// A hierarchy and its writer after one second of an advance, and the
/// window that is due with it: the writer hands on the slot of the second,
/// which comes in frozen.
pub open spec fn second_passed<A: Aggregator>(
    state: HawState<A::PartialAggregate>,
    writer: WriterView<A::MutablePartialAggregate>,
) -> (
    HawState<A::PartialAggregate>,
    WriterView<A::MutablePartialAggregate>,
    Option<(u64, A::PartialAggregate)>,
) {
    let now = second_with::<A>(state, frozen::<A>(writer.slots.tick_result()));
    (
        now.0,
        WriterView {
            watermark: (writer.watermark + 1000) as u64,
            slots: writer.slots.ticked(),
        },
        now.1,
    )
}

/// A hierarchy after one second for each of a run of deltas, oldest first.
pub open spec fn delta_advanced<A: Aggregator>(
    state: HawState<A::PartialAggregate>,
    deltas: Seq<Option<A::PartialAggregate>>,
) -> HawState<A::PartialAggregate>
    decreases deltas.len(),
{
    if deltas.len() == 0 {
        state
    } else {
        second_with::<A>(delta_advanced::<A>(state, deltas.drop_last()), deltas.last()).0
    }
}

/// A hierarchy after `seconds` seconds in which nothing came in.
pub open spec fn idled<A: Aggregator>(state: HawState<A::PartialAggregate>, seconds: nat)
    -> HawState<A::PartialAggregate>
    decreases seconds,
{
    if seconds == 0 {
        state
    } else {
        second_with::<A>(idled::<A>(state, (seconds - 1) as nat), None).0
    }
}

/// Six wheels merged with six others, wheel by wheel.
pub open spec fn merged_view<A: Aggregator>(
    view: HawView<A::PartialAggregate>,
    other: HawView<A::PartialAggregate>,
) -> HawView<A::PartialAggregate> {
    HawView {
        watermark: view.watermark,
        seconds: maybe_merged::<A>(view.seconds, other.seconds),
        minutes: maybe_merged::<A>(view.minutes, other.minutes),
        hours: maybe_merged::<A>(view.hours, other.hours),
        days: maybe_merged::<A>(view.days, other.days),
        weeks: maybe_merged::<A>(view.weeks, other.weeks),
        years: maybe_merged::<A>(view.years, other.years),
    }
}

/// Six wheels with the wheels from seconds to days under another layout.
pub open spec fn converted_view<P>(view: HawView<P>, layout: DataLayout) -> HawView<P>
    recommends
        view.seconds.wheel is Some,
        view.minutes.wheel is Some,
        view.hours.wheel is Some,
        view.days.wheel is Some,
{
    HawView {
        seconds: converted(view.seconds, layout),
        minutes: converted(view.minutes, layout),
        hours: converted(view.hours, layout),
        days: converted(view.days, layout),
        ..view
    }
}

/// An allocated wheel under another layout.
pub open spec fn converted<P>(wheel: MaybeView<P>, layout: DataLayout) -> MaybeView<P>
    recommends
        wheel.wheel is Some,
{
    MaybeView {
        conf: WheelConf { data_layout: layout, ..wheel.conf },
        wheel: Some(wheel.wheel.unwrap().with_layout(layout)),
    }
}

/// Bytes that six wheels take up, capped at the largest `usize`.
pub open spec fn size_of_view<A: Aggregator>(view: HawView<A::PartialAggregate>) -> int {
    capped(
        capped(
            capped(
                capped(
                    capped(maybe_size::<A>(view.seconds) + maybe_size::<A>(view.minutes))
                        + maybe_size::<A>(view.hours),
                ) + maybe_size::<A>(view.days),
            ) + maybe_size::<A>(view.weeks),
        ) + maybe_size::<A>(view.years),
    )
}

/// A hierarchy and its writer after `seconds` seconds of an advance, and
/// the windows that came due, oldest first.
pub open spec fn advanced<A: Aggregator>(
    state: HawState<A::PartialAggregate>,
    writer: WriterView<A::MutablePartialAggregate>,
    seconds: nat,
) -> (
    HawState<A::PartialAggregate>,
    WriterView<A::MutablePartialAggregate>,
    Seq<(u64, A::PartialAggregate)>,
)
    decreases seconds,
{
    if seconds == 0 {
        (state, writer, Seq::empty())
    } else {
        let before = advanced::<A>(state, writer, (seconds - 1) as nat);
        let now = second_passed::<A>(before.0, before.1);
        (
            now.0,
            now.1,
            match now.2 {
                Some(window) => before.2.push(window),
                None => before.2,
            },
        )
    }
}

/// The six wheels of a hierarchy that is made at `time` from `conf`: none
/// allocated, each to start at `time`.
pub open spec fn initial_view<P>(time: u64, conf: HawConf) -> HawView<P> {
    HawView {
        watermark: time,
        seconds: MaybeView { conf: WheelConf { watermark: time, ..conf.seconds }, wheel: None },
        minutes: MaybeView { conf: WheelConf { watermark: time, ..conf.minutes }, wheel: None },
        hours: MaybeView { conf: WheelConf { watermark: time, ..conf.hours }, wheel: None },
        days: MaybeView { conf: WheelConf { watermark: time, ..conf.days }, wheel: None },
        weeks: MaybeView { conf: WheelConf { watermark: time, ..conf.weeks }, wheel: None },
        years: MaybeView { conf: WheelConf { watermark: time, ..conf.years }, wheel: None },
    }
}

/// The six wheels with every slot dropped and the cycle starting anew at
/// the watermark.
pub open spec fn cleared_view<P>(view: HawView<P>) -> HawView<P> {
    HawView {
        watermark: view.watermark,
        seconds: MaybeView {
            conf: WheelConf { watermark: view.watermark, ..view.seconds.conf },
            wheel: None,
        },
        minutes: MaybeView {
            conf: WheelConf { watermark: view.watermark, ..view.minutes.conf },
            wheel: None,
        },
        hours: MaybeView {
            conf: WheelConf { watermark: view.watermark, ..view.hours.conf },
            wheel: None,
        },
        days: MaybeView {
            conf: WheelConf { watermark: view.watermark, ..view.days.conf },
            wheel: None,
        },
        weeks: MaybeView {
            conf: WheelConf { watermark: view.watermark, ..view.weeks.conf },
            wheel: None,
        },
        years: MaybeView {
            conf: WheelConf { watermark: view.watermark, ..view.years.conf },
            wheel: None,
        },
    }
}

/// The partial aggregate that a tick inserts: the delta, or the identity
/// where there is none.
pub open spec fn delta_value<A: Aggregator>(delta: Option<A::PartialAggregate>)
    -> A::PartialAggregate {
    match delta {
        Some(partial) => partial,
        None => A::identity_spec(),
    }
}

/// The partial aggregates that a run of deltas inserts, tick by tick.
pub open spec fn delta_values<A: Aggregator>(deltas: Seq<Option<A::PartialAggregate>>) -> Seq<
    A::PartialAggregate,
> {
    Seq::new(deltas.len(), |i: int| delta_value::<A>(deltas[i]))
}

/// Whether a wheel has the shape that is expected of the wheel of slot
/// length `unit` seconds after `history`.
pub open spec fn wheel_in_shape<A: Aggregator>(
    wheel: MaybeView<A::PartialAggregate>,
    history: Seq<A::PartialAggregate>,
    start_ms: int,
    unit: int,
    capacity: usize,
) -> bool {
    &&& wheel.conf.has_shape((unit * 1000) as u64, capacity)
    &&& wheel.conf.watermark == start_ms
    &&& same_shape(wheel, expected::<A>(history, start_ms, wheel.conf, unit))
}

/// Whether a wheel holds, slot by slot, the stretches of `history`.
pub open spec fn wheel_holds<A: Aggregator>(
    wheel: MaybeView<A::PartialAggregate>,
    history: Seq<A::PartialAggregate>,
    start_ms: int,
    unit: int,
) -> bool {
    wheel == expected::<A>(history, start_ms, wheel.conf, unit)
}

/// Whether six wheels have the shapes that are expected after `history`.
#[verifier::opaque]
pub open spec fn wheels_in_shape<A: Aggregator>(
    view: HawView<A::PartialAggregate>,
    history: Seq<A::PartialAggregate>,
) -> bool {
    let start_ms = view.watermark - history.len() * 1000;
    &&& start_ms >= 0
    &&& wheel_in_shape::<A>(view.seconds, history, start_ms, 1, SECONDS)
    &&& wheel_in_shape::<A>(view.minutes, history, start_ms, MINUTE_AS_SECS as int, MINUTES)
    &&& wheel_in_shape::<A>(view.hours, history, start_ms, HOUR_AS_SECS as int, HOURS)
    &&& wheel_in_shape::<A>(view.days, history, start_ms, DAY_AS_SECS as int, DAYS)
    &&& wheel_in_shape::<A>(view.weeks, history, start_ms, WEEK_AS_SECS as int, WEEKS)
    &&& wheel_in_shape::<A>(view.years, history, start_ms, YEAR_AS_SECS as int, YEARS)
}

/// Whether six wheels hold, slot by slot, the stretches of `history`.
#[verifier::opaque]
pub open spec fn wheels_hold<A: Aggregator>(
    view: HawView<A::PartialAggregate>,
    history: Seq<A::PartialAggregate>,
) -> bool {
    let start_ms = view.watermark - history.len() * 1000;
    &&& wheel_holds::<A>(view.seconds, history, start_ms, 1)
    &&& wheel_holds::<A>(view.minutes, history, start_ms, MINUTE_AS_SECS as int)
    &&& wheel_holds::<A>(view.hours, history, start_ms, HOUR_AS_SECS as int)
    &&& wheel_holds::<A>(view.days, history, start_ms, DAY_AS_SECS as int)
    &&& wheel_holds::<A>(view.weeks, history, start_ms, WEEK_AS_SECS as int)
    &&& wheel_holds::<A>(view.years, history, start_ms, YEAR_AS_SECS as int)
}

/// A wheel at rest that takes in the slots of another wheel at rest keeps
/// its shape.
pub proof fn lemma_merge_keeps_shape<A: Aggregator>(
    wheel: MaybeView<A::PartialAggregate>,
    other: MaybeView<A::PartialAggregate>,
    history: Seq<A::PartialAggregate>,
    start_ms: int,
    unit: int,
    capacity: usize,
)
    requires
        wheel_in_shape::<A>(wheel, history, start_ms, unit, capacity),
        other.wheel matches Some(theirs) ==> theirs.head is None,
    ensures
        wheel_in_shape::<A>(maybe_merged::<A>(wheel, other), history, start_ms, unit, capacity),
{
}

/// The positions of the six wheels add up to the count of ticks, less the
/// whole cycles among them.
pub proof fn lemma_cycle_secs<A: Aggregator>(
    view: HawView<A::PartialAggregate>,
    history: Seq<A::PartialAggregate>,
)
    requires
        wheels_in_shape::<A>(view, history),
    ensures
        view.watermark >= history.len() * 1000,
        view.cycle_secs() == history.len() % (TOTAL_SECS_IN_WHEEL as nat),
        view.seconds.rotation_count() < 60,
        view.minutes.rotation_count() < 60,
        view.hours.rotation_count() < 24,
        view.days.rotation_count() < 7,
        view.weeks.rotation_count() < 52,
        view.years.rotation_count() < 10,
        view.seconds.len() <= 60,
        view.minutes.len() <= 60,
        view.hours.len() <= 24,
        view.days.len() <= 7,
        view.weeks.len() <= 52,
        view.years.len() <= 10,
{
    reveal(wheels_in_shape);
    let t = history.len() as int;
    let start_ms = view.watermark - history.len() * 1000;
    lemma_expected_well_formed::<A>(history, start_ms, view.seconds.conf, 1);
    lemma_expected_well_formed::<A>(history, start_ms, view.minutes.conf, 60);
    lemma_expected_well_formed::<A>(history, start_ms, view.hours.conf, 3600);
    lemma_expected_well_formed::<A>(history, start_ms, view.days.conf, 86_400);
    lemma_expected_well_formed::<A>(history, start_ms, view.weeks.conf, 604_800);
    lemma_expected_well_formed::<A>(history, start_ms, view.years.conf, 31_449_600);
    assert(view.seconds.rotation_count() == (t / 1) % 60);
    assert(view.minutes.rotation_count() == (t / 60) % 60);
    assert(view.hours.rotation_count() == (t / 3600) % 24);
    assert(view.days.rotation_count() == (t / 86_400) % 7);
    assert(view.weeks.rotation_count() == (t / 604_800) % 52);
    assert(view.years.rotation_count() == (t / 31_449_600) % 10);
    lemma_mixed_radix(t);
}

/// A count of seconds, less the whole cycles in it, is the sum of its
/// digits in the mixed radix of the six wheels.
pub proof fn lemma_mixed_radix(t: int)
    requires
        t >= 0,
    ensures
        t % 314_496_000 == t % 60 + ((t / 60) % 60) * 60 + ((t / 3600) % 24) * 3600 + ((t
            / 86_400) % 7) * 86_400 + ((t / 604_800) % 52) * 604_800 + ((t / 31_449_600) % 10)
            * 31_449_600,
{
    let m = t / 60;
    let h = t / 3600;
    let d = t / 86_400;
    let w = t / 604_800;
    let y = t / 31_449_600;
    let c = t / 314_496_000;
    assert(t == m * 60 + t % 60);
    assert(m == h * 60 + m % 60);
    assert(h == d * 24 + h % 24);
    assert(d == w * 7 + d % 7);
    assert(w == y * 52 + w % 52);
    assert(y == c * 10 + y % 10);
}

} // verus!
