use crate::aggregator::Aggregator;
use crate::aggregator::fold;
use crate::aggregator::fold_some;
use crate::aggregator::lemma_fold_concat;
use crate::aggregator::lemma_fold_single;
use crate::aggregator::lemma_fold_split;
use crate::conf::DAYS;
use crate::conf::HOURS;
use crate::conf::MINUTES;
use crate::conf::Optimizer;
use crate::conf::DataLayout;
use crate::conf::RetentionPolicy;
use crate::state::converted_view;
use crate::conf::SECONDS;
use crate::conf::TOTAL_SECS_IN_WHEEL;
use crate::conf::WEEKS;
use crate::conf::YEARS;
use crate::datetime::DateTime;
use crate::datetime::day_of_month;
use crate::granularity::Granularity;
use crate::hierarchical::Haw;
use crate::laws::at_rest;
use crate::laws::lemma_landmark_is_rollup;
use crate::laws::live_of;
use crate::maybe::maybe_aggregate;
use crate::maybe::MaybeView;
use crate::model::chunk;
use crate::model::lemma_count_step;
use crate::model::lemma_expected_well_formed;
use crate::model::lemma_fold_chunks;
use crate::model::limit_of;
use crate::plan::PlanView;
use crate::plan::WheelAggregation;
use crate::query::by_granularity;
use crate::query::combine_range_of;
use crate::query::combined_plan;
use crate::query::combined_result;
use crate::query::execute;
use crate::query::inverse_gaps;
use crate::query::inverse_result;
use crate::query::landmark_covers;
use crate::query::landmark_of;
use crate::query::or_identity;
use crate::query::plans_of;
use crate::query::wheel_aggregation;
use crate::query::wheel_of;
use crate::range::granularity_of;
use crate::range::lemma_granularity_aligned;
use crate::range::lemma_next_end_bounds;
use crate::range::lemma_split_partitions;
use crate::range::next_end;
use crate::range::range_at;
use crate::range::slots_between;
use crate::range::split_ranges;
use crate::range::split_spec;
use crate::range::WheelRange;
use crate::reorder::all_answered;
use crate::reorder::answers;
use crate::reorder::lemma_by_granularity_answered;
use crate::reorder::lemma_combined_is_fold;
use crate::reorder::lemma_order_is_unseen;
use crate::state::HawView;
use crate::state::lemma_cycle_secs;
use crate::state::wheel_holds;
use crate::state::wheel_in_shape;
use crate::state::wheels_hold;
use crate::state::wheels_in_shape;
use vstd::arithmetic::div_mod::lemma_fundamental_div_mod;
use vstd::arithmetic::div_mod::lemma_fundamental_div_mod_converse;
use vstd::prelude::*;

verus! {

/// Whether a wheel of slot length `unit` still holds every slot that it
/// has closed over `history`.
pub open spec fn keeps_all<P>(wheel: MaybeView<P>, history: Seq<P>, unit: int) -> bool {
    history.len() as int / unit <= limit_of(wheel.conf)
}

/// A wheel that holds the stretches of a history, and has dropped none,
/// answers a range that lies on its slot boundaries and within the
/// history with the combination of the ticks that the range spans.
pub proof fn lemma_wheel_answers<A: Aggregator>(
    wheel: MaybeView<A::PartialAggregate>,
    history: Seq<A::PartialAggregate>,
    start_ms: int,
    granularity: Granularity,
    capacity: usize,
    from: int,
    n: int,
)
    requires
        start_ms >= 0,
        start_ms % (granularity.unit_secs() * 1000) == 0,
        start_ms + history.len() * 1000 <= u64::MAX,
        wheel_in_shape::<A>(wheel, history, start_ms, granularity.unit_secs(), capacity),
        wheel_holds::<A>(wheel, history, start_ms, granularity.unit_secs()),
        keeps_all(wheel, history, granularity.unit_secs()),
        capacity >= 1,
        from >= 0,
        n >= 1,
        from % granularity.unit_secs() == 0,
        from + n * granularity.unit_secs() <= history.len(),
    ensures
        maybe_aggregate::<A>(wheel, start_ms / 1000 + from, n, granularity) == Some(
            fold::<A>(history.subrange(from, from + n * granularity.unit_secs())),
        ),
{
    let unit = granularity.unit_secs();
    let ticks = history.len() as int;
    let count = ticks / unit;
    let first = from / unit;
    let limit = limit_of(wheel.conf);
    lemma_count_step(ticks, unit);
    lemma_expected_well_formed::<A>(history, start_ms, wheel.conf, unit);
    lemma_fundamental_div_mod(from, unit);
    lemma_fundamental_div_mod(ticks, unit);
    lemma_fundamental_div_mod(start_ms, unit * 1000);
    assert(unit * first == first * unit) by (nonlinear_arith);
    assert(from == first * unit);
    assert(first >= 0 && first + n <= count && (first + n) * unit == from + n * unit) by (
        nonlinear_arith)
        requires
            from == first * unit,
            from >= 0,
            n >= 1,
            unit >= 1,
            from + n * unit <= ticks,
            ticks == unit * count + ticks % unit,
            0 <= ticks % unit < unit,
    ;
    assert(count >= 1);
    let inner = wheel.wheel.unwrap();
    // where the wheel stands, in seconds
    let base = start_ms / 1000;
    assert(start_ms == base * 1000) by {
        let q = start_ms / (unit * 1000);
        assert(start_ms == (unit * 1000) * q);
        assert((unit * 1000) * q == (unit * q) * 1000) by (nonlinear_arith);
    }
    assert(base % unit == 0) by {
        let q = start_ms / (unit * 1000);
        assert(start_ms == (unit * 1000) * q);
        assert((unit * 1000) * q == (q * unit) * 1000) by (nonlinear_arith);
        assert(base == q * unit);
        lemma_fundamental_div_mod_converse(base, unit, q, 0);
    }
    assert(count * unit * 1000 == (count * unit) * 1000);
    assert(0 <= count * unit <= ticks) by (nonlinear_arith)
        requires
            ticks == unit * count + ticks % unit,
            0 <= ticks % unit < unit,
            count >= 0,
            unit >= 1,
    ;
    assert(inner.watermark == start_ms + count * unit * 1000);
    assert(inner.watermark as int / 1000 == base + count * unit);
    let gap = inner.watermark as int / 1000 - (base + from);
    assert(gap == (count - first) * unit) by (nonlinear_arith)
        requires
            gap == count * unit - from,
            from == first * unit,
    ;
    assert(gap >= 0) by (nonlinear_arith)
        requires
            gap == (count - first) * unit,
            first <= count,
            unit >= 1,
    ;
    lemma_fundamental_div_mod_converse(gap, unit, count - first, 0);
    let distance = count - first;
    assert(inner.distance(base + from, granularity) == Some(distance));
    assert(inner.slots.len() == count);
    assert(inner.covers(base + from, n, granularity));
    let window = inner.window(base + from, n, granularity);
    let chunks = Seq::new(n as nat, |i: int| chunk::<A>(history, unit, first + i));
    assert(window =~= chunks);
    lemma_fold_chunks::<A>(history, unit, first, n);
}

/// The setting in which queries can be held against the history: the
/// wheels hold the stretches of `history`, the wheels from seconds to days
/// have dropped no slot, the first tick began at a midnight, and the first
/// cycle is still under way.
#[verifier::opaque]
pub open spec fn retains<A: Aggregator>(
    view: HawView<A::PartialAggregate>,
    history: Seq<A::PartialAggregate>,
) -> bool {
    &&& wheels_in_shape::<A>(view, history)
    &&& wheels_hold::<A>(view, history)
    &&& (view.watermark - history.len() * 1000) % 86_400_000 == 0
    &&& history.len() < TOTAL_SECS_IN_WHEEL
    &&& keeps_all(view.seconds, history, 1)
    &&& keeps_all(view.minutes, history, 60)
    &&& keeps_all(view.hours, history, 3600)
    &&& keeps_all(view.days, history, 86_400)
}

/// The second at which the first tick of `history` began.
pub open spec fn first_second<P>(view: HawView<P>, history: Seq<P>) -> int {
    (view.watermark - history.len() * 1000) / 1000
}

/// Whether a range is not empty and lies within the seconds that
/// `history` spans.
pub open spec fn spans<P>(view: HawView<P>, history: Seq<P>, range: WheelRange) -> bool {
    first_second(view, history) <= range.start.secs() < range.end.secs() <= first_second(
        view,
        history,
    ) + history.len()
}

/// The scan of a range, second by second: the combination of what each
/// tick in the range inserted, oldest first.
pub open spec fn scanned<A: Aggregator>(
    view: HawView<A::PartialAggregate>,
    history: Seq<A::PartialAggregate>,
    range: WheelRange,
) -> A::PartialAggregate {
    fold::<A>(
        history.subrange(
            range.start.secs() - first_second(view, history),
            range.end.secs() - first_second(view, history),
        ),
    )
}

/// Three multiples of a unit: their differences are multiples of it too,
/// and the later two lie a whole number of units apart.
pub proof fn lemma_multiples(base: int, start: int, end: int, unit: int)
    requires
        unit >= 1,
        base % unit == 0,
        start % unit == 0,
        end % unit == 0,
        base <= start < end,
    ensures
        (start - base) % unit == 0,
        (base * 1000) % (unit * 1000) == 0,
        (end - start) / unit >= 1,
        ((end - start) / unit) * unit == end - start,
{
    let b = base / unit;
    let s = start / unit;
    let e = end / unit;
    lemma_fundamental_div_mod(base, unit);
    lemma_fundamental_div_mod(start, unit);
    lemma_fundamental_div_mod(end, unit);
    assert(start - base == (s - b) * unit) by (nonlinear_arith)
        requires
            base == unit * b,
            start == unit * s,
    ;
    assert(end - start == (e - s) * unit) by (nonlinear_arith)
        requires
            start == unit * s,
            end == unit * e,
    ;
    assert(e - s >= 1) by (nonlinear_arith)
        requires
            end - start == (e - s) * unit,
            end - start >= 1,
            unit >= 1,
    ;
    assert(base * 1000 == b * (unit * 1000)) by (nonlinear_arith)
        requires
            base == unit * b,
    ;
    lemma_fundamental_div_mod_converse(start - base, unit, s - b, 0);
    lemma_fundamental_div_mod_converse(end - start, unit, e - s, 0);
    lemma_fundamental_div_mod_converse(base * 1000, unit * 1000, b, 0);
}

/// A range that starts at or after a midnight `base` lies, measured from
/// `base`, on slot boundaries of its granularity, and spans at least one
/// slot.
pub proof fn lemma_range_on_slots(base: int, start: int, end: int)
    requires
        base % 86_400 == 0,
        base <= start < end,
    ensures
        (start - base) % granularity_of(start, end).unit_secs() == 0,
        (base * 1000) % (granularity_of(start, end).unit_secs() * 1000) == 0,
        slots_between(start, end) >= 1,
        slots_between(start, end) * granularity_of(start, end).unit_secs() == end - start,
{
    lemma_granularity_aligned(start, end);
    let unit = granularity_of(start, end).unit_secs();
    assert(unit == 1 || unit == 60 || unit == 3600 || unit == 86_400);
    assert(base % unit == 0) by {
        let days = base / 86_400;
        assert(base == days * 86_400);
        if unit == 60 {
            assert(base == (days * 1440) * 60);
        } else if unit == 3600 {
            assert(base == (days * 24) * 3600);
        }
    }
    lemma_multiples(base, start, end, unit);
}

/// A wheel that holds the stretches of a history that began at a
/// midnight, and has dropped none, answers a range of its granularity
/// within the history with the combination of the ticks that the range
/// spans.
pub proof fn lemma_range_answer<A: Aggregator>(
    wheel: MaybeView<A::PartialAggregate>,
    history: Seq<A::PartialAggregate>,
    base: int,
    range: WheelRange,
    capacity: usize,
)
    requires
        base >= 0,
        base % 86_400 == 0,
        base * 1000 + history.len() * 1000 <= u64::MAX,
        capacity >= 1,
        wheel_in_shape::<A>(wheel, history, base * 1000, range.granularity().unit_secs(), capacity),
        wheel_holds::<A>(wheel, history, base * 1000, range.granularity().unit_secs()),
        keeps_all(wheel, history, range.granularity().unit_secs()),
        base <= range.start.secs() < range.end.secs() <= base + history.len(),
    ensures
        maybe_aggregate::<A>(wheel, range.start.secs(), range.slots(), range.granularity())
            == Some(
            fold::<A>(history.subrange(range.start.secs() - base, range.end.secs() - base)),
        ),
{
    let start = range.start.secs();
    let end = range.end.secs();
    lemma_range_on_slots(base, start, end);
    lemma_wheel_answers::<A>(
        wheel,
        history,
        base * 1000,
        range.granularity(),
        capacity,
        start - base,
        range.slots(),
    );
    assert((base * 1000) / 1000 == base);
}

/// The wheel that answers the ranges of a granularity is in shape, holds
/// the stretches of the history, and has dropped none.
pub proof fn lemma_wheel_of_retains<A: Aggregator>(
    view: HawView<A::PartialAggregate>,
    history: Seq<A::PartialAggregate>,
    granularity: Granularity,
)
    requires
        retains::<A>(view, history),
    ensures
        wheel_in_shape::<A>(
            wheel_of(view, granularity),
            history,
            view.watermark - history.len() * 1000,
            granularity.unit_secs(),
            capacity_of(granularity),
        ),
        wheel_holds::<A>(
            wheel_of(view, granularity),
            history,
            view.watermark - history.len() * 1000,
            granularity.unit_secs(),
        ),
        keeps_all(wheel_of(view, granularity), history, granularity.unit_secs()),
{
    reveal(retains);
    reveal(wheels_in_shape);
    reveal(wheels_hold);
}

/// Slots of the wheel that answers the ranges of a granularity.
pub open spec fn capacity_of(granularity: Granularity) -> usize {
    match granularity {
        Granularity::Second => SECONDS,
        Granularity::Minute => MINUTES,
        Granularity::Hour => HOURS,
        Granularity::Day => DAYS,
    }
}

/// Where the wheels retain a history, the history began at a midnight at
/// or after the epoch, the cycle under way began with it, and the
/// watermark is a whole second.
pub proof fn lemma_retained_times<A: Aggregator>(
    view: HawView<A::PartialAggregate>,
    history: Seq<A::PartialAggregate>,
)
    requires
        retains::<A>(view, history),
    ensures
        first_second(view, history) >= 0,
        first_second(view, history) % 86_400 == 0,
        view.watermark - history.len() * 1000 == first_second(view, history) * 1000,
        view.wheel_start() == first_second(view, history) * 1000,
        view.wheel_start() / 1000 == first_second(view, history),
        view.watermark as int / 1000 == first_second(view, history) + history.len(),
        history.len() < TOTAL_SECS_IN_WHEEL,
        wheels_in_shape::<A>(view, history),
        wheels_hold::<A>(view, history),
{
    reveal(retains);
    lemma_cycle_secs::<A>(view, history);
    lemma_whole_seconds(view.watermark as int, history.len() as int);
}

/// A watermark that lies `ticks` seconds after a midnight is a whole
/// second, and the midnight is told by dividing.
pub proof fn lemma_whole_seconds(watermark: int, ticks: int)
    requires
        ticks >= 0,
        watermark - ticks * 1000 >= 0,
        (watermark - ticks * 1000) % 86_400_000 == 0,
    ensures
        (watermark - ticks * 1000) / 1000 >= 0,
        ((watermark - ticks * 1000) / 1000) % 86_400 == 0,
        watermark - ticks * 1000 == ((watermark - ticks * 1000) / 1000) * 1000,
        watermark / 1000 == (watermark - ticks * 1000) / 1000 + ticks,
{
    let start_ms = watermark - ticks * 1000;
    let days = start_ms / 86_400_000;
    assert(start_ms == days * 86_400_000);
    assert(start_ms / 1000 == days * 86_400);
}

/// The wheel of a range's granularity answers the range with its scan.
pub proof fn lemma_wheel_aggregation_is_scan<A: Aggregator>(
    view: HawView<A::PartialAggregate>,
    history: Seq<A::PartialAggregate>,
    range: WheelRange,
)
    requires
        retains::<A>(view, history),
        spans(view, history, range),
    ensures
        wheel_aggregation::<A>(view, range) == Some(scanned::<A>(view, history, range)),
{
    let start_ms = view.watermark - history.len() * 1000;
    let base = start_ms / 1000;
    lemma_retained_times::<A>(view, history);
    lemma_wheel_of_retains::<A>(view, history, range.granularity());
    lemma_range_answer::<A>(
        wheel_of(view, range.granularity()),
        history,
        base,
        range,
        capacity_of(range.granularity()),
    );
}

/// Where the rotation under way of a wheel began, in ticks of the history.
pub open spec fn rotation_begin(ticks: int, unit: int, capacity: int) -> int {
    (ticks / unit - (ticks / unit) % capacity) * unit
}

/// Up to where a wheel has closed slots, in ticks of the history.
pub open spec fn closed_until(ticks: int, unit: int) -> int {
    (ticks / unit) * unit
}

/// The live slots of a wheel that holds the stretches of a history
/// combine to the ticks of the rotation under way.
pub proof fn lemma_live_is_stretch<A: Aggregator>(
    wheel: MaybeView<A::PartialAggregate>,
    history: Seq<A::PartialAggregate>,
    start_ms: int,
    unit: int,
    capacity: usize,
)
    requires
        unit >= 1,
        capacity >= 1,
        wheel.conf.capacity == capacity,
        wheel_holds::<A>(wheel, history, start_ms, unit),
    ensures
        live_of(wheel).len() == (history.len() as int / unit) % (capacity as int),
        0 <= rotation_begin(history.len() as int, unit, capacity as int) <= closed_until(
            history.len() as int,
            unit,
        ) <= history.len(),
        fold::<A>(live_of(wheel)) == fold::<A>(
            history.subrange(
                rotation_begin(history.len() as int, unit, capacity as int),
                closed_until(history.len() as int, unit),
            ),
        ),
{
    let ticks = history.len() as int;
    let count = ticks / unit;
    let turned = count % (capacity as int);
    lemma_count_step(ticks, unit);
    lemma_expected_well_formed::<A>(history, start_ms, wheel.conf, unit);
    let first = count - turned;
    assert(0 <= first * unit <= count * unit) by (nonlinear_arith)
        requires
            0 <= first <= count,
            unit >= 1,
    ;
    if count == 0 {
        assert(live_of(wheel) =~= Seq::empty());
        assert(history.subrange(first * unit, count * unit) =~= Seq::empty());
    } else {
        let inner = wheel.wheel.unwrap();
        let chunks = Seq::new(turned as nat, |i: int| chunk::<A>(history, unit, first + i));
        assert(inner.live() =~= chunks);
        assert((first + turned) * unit == count * unit);
        lemma_fold_chunks::<A>(history, unit, first, turned);
    }
}

/// Where `combine` is commutative, an older stretch can be combined into
/// what was combined of the ticks after it.
pub proof fn lemma_prepend_stretch<A: Aggregator>(
    history: Seq<A::PartialAggregate>,
    newer: Seq<A::PartialAggregate>,
    older: Seq<A::PartialAggregate>,
    lo: int,
    mid: int,
)
    requires
        A::commutative_spec(),
        0 <= lo <= mid <= history.len(),
        fold::<A>(newer) == fold::<A>(history.subrange(mid, history.len() as int)),
        fold::<A>(older) == fold::<A>(history.subrange(lo, mid)),
    ensures
        fold::<A>(newer + older) == fold::<A>(history.subrange(lo, history.len() as int)),
{
    lemma_fold_concat::<A>(newer, older);
    A::lemma_commutative(fold::<A>(newer), fold::<A>(older));
    lemma_fold_split::<A>(history, lo, mid, history.len() as int);
}

/// The rotation under way of each wheel begins where the wheel above has
/// closed its last slot, and in the first cycle that of the years wheel
/// begins with the first tick.
pub proof fn lemma_rotations_meet(t: int)
    requires
        0 <= t < TOTAL_SECS_IN_WHEEL,
    ensures
        closed_until(t, 1) == t,
        rotation_begin(t, 1, 60) == closed_until(t, 60),
        rotation_begin(t, 60, 60) == closed_until(t, 3600),
        rotation_begin(t, 3600, 24) == closed_until(t, 86_400),
        rotation_begin(t, 86_400, 7) == closed_until(t, 604_800),
        rotation_begin(t, 604_800, 52) == closed_until(t, 31_449_600),
        rotation_begin(t, 31_449_600, 10) == 0,
        (t == 0) == ((t / 1) % 60 + (t / 60) % 60 + (t / 3600) % 24 + (t / 86_400) % 7 + (t
            / 604_800) % 52 + (t / 31_449_600) % 10 == 0),
{
    let c2 = t / 60;
    let c3 = t / 3600;
    let c4 = t / 86_400;
    let c5 = t / 604_800;
    let c6 = t / 31_449_600;
    assert(t == c2 * 60 + t % 60);
    assert(c2 == c3 * 60 + c2 % 60);
    assert(c3 == c4 * 24 + c3 % 24);
    assert(c4 == c5 * 7 + c4 % 7);
    assert(c5 == c6 * 52 + c5 % 52);
    assert(c6 < 10);
}

/// Whether a run of slots combines to the ticks of the rotation under way
/// of the wheel of slot length `unit`, and is as long as the wheel has
/// turned in it.
pub open spec fn stretch_is<A: Aggregator>(
    history: Seq<A::PartialAggregate>,
    slots: Seq<A::PartialAggregate>,
    unit: int,
    capacity: int,
) -> bool {
    &&& slots.len() == (history.len() as int / unit) % capacity
    &&& 0 <= rotation_begin(history.len() as int, unit, capacity) <= closed_until(
        history.len() as int,
        unit,
    ) <= history.len()
    &&& fold::<A>(slots) == fold::<A>(
        history.subrange(
            rotation_begin(history.len() as int, unit, capacity),
            closed_until(history.len() as int, unit),
        ),
    )
}

/// The live slots of each of the six wheels combine to the ticks of its
/// rotation under way.
pub proof fn lemma_lives_are_stretches<A: Aggregator>(
    view: HawView<A::PartialAggregate>,
    history: Seq<A::PartialAggregate>,
)
    requires
        wheels_in_shape::<A>(view, history),
        wheels_hold::<A>(view, history),
    ensures
        at_rest(view),
        stretch_is::<A>(history, live_of(view.seconds), 1, 60),
        stretch_is::<A>(history, live_of(view.minutes), 60, 60),
        stretch_is::<A>(history, live_of(view.hours), 3600, 24),
        stretch_is::<A>(history, live_of(view.days), 86_400, 7),
        stretch_is::<A>(history, live_of(view.weeks), 604_800, 52),
        stretch_is::<A>(history, live_of(view.years), 31_449_600, 10),
{
    reveal(wheels_in_shape);
    reveal(wheels_hold);
    let start_ms = view.watermark - history.len() * 1000;
    lemma_expected_well_formed::<A>(history, start_ms, view.seconds.conf, 1);
    lemma_expected_well_formed::<A>(history, start_ms, view.minutes.conf, 60);
    lemma_expected_well_formed::<A>(history, start_ms, view.hours.conf, 3600);
    lemma_expected_well_formed::<A>(history, start_ms, view.days.conf, 86_400);
    lemma_expected_well_formed::<A>(history, start_ms, view.weeks.conf, 604_800);
    lemma_expected_well_formed::<A>(history, start_ms, view.years.conf, 31_449_600);
    lemma_live_is_stretch::<A>(view.seconds, history, start_ms, 1, SECONDS);
    lemma_live_is_stretch::<A>(view.minutes, history, start_ms, 60, MINUTES);
    lemma_live_is_stretch::<A>(view.hours, history, start_ms, 3600, HOURS);
    lemma_live_is_stretch::<A>(view.days, history, start_ms, 86_400, DAYS);
    lemma_live_is_stretch::<A>(view.weeks, history, start_ms, 604_800, WEEKS);
    lemma_live_is_stretch::<A>(view.years, history, start_ms, 31_449_600, YEARS);
}

/// In the first cycle, and where `combine` is commutative, the landmark
/// is the combination of all ticks of the history; there is none exactly
/// where there has been no tick.
pub proof fn lemma_landmark_is_history<A: Aggregator>(
    view: HawView<A::PartialAggregate>,
    history: Seq<A::PartialAggregate>,
)
    requires
        A::commutative_spec(),
        wheels_in_shape::<A>(view, history),
        wheels_hold::<A>(view, history),
        history.len() < TOTAL_SECS_IN_WHEEL,
    ensures
        landmark_of::<A>(view).0 == fold_some::<A>(history),
{
    let t = history.len() as int;
    lemma_lives_are_stretches::<A>(view, history);
    lemma_landmark_is_rollup::<A>(view);
    lemma_rotations_meet(t);
    lemma_gather::<A>(
        history,
        live_of(view.seconds),
        live_of(view.minutes),
        live_of(view.hours),
        live_of(view.days),
        live_of(view.weeks),
        live_of(view.years),
    );
}

/// Six stretches that follow one another back from the newest tick to the
/// first combine, newest first, to the combination of the whole history.
pub proof fn lemma_gather<A: Aggregator>(
    history: Seq<A::PartialAggregate>,
    s: Seq<A::PartialAggregate>,
    m: Seq<A::PartialAggregate>,
    h: Seq<A::PartialAggregate>,
    d: Seq<A::PartialAggregate>,
    w: Seq<A::PartialAggregate>,
    y: Seq<A::PartialAggregate>,
)
    requires
        A::commutative_spec(),
        history.len() < TOTAL_SECS_IN_WHEEL,
        stretch_is::<A>(history, s, 1, 60),
        stretch_is::<A>(history, m, 60, 60),
        stretch_is::<A>(history, h, 3600, 24),
        stretch_is::<A>(history, d, 86_400, 7),
        stretch_is::<A>(history, w, 604_800, 52),
        stretch_is::<A>(history, y, 31_449_600, 10),
    ensures
        fold_some::<A>(s + m + h + d + w + y) == fold_some::<A>(history),
{
    let t = history.len() as int;
    lemma_rotations_meet(t);
    lemma_prepend_stretch::<A>(history, s, m, rotation_begin(t, 60, 60), closed_until(t, 60));
    lemma_prepend_stretch::<A>(
        history,
        s + m,
        h,
        rotation_begin(t, 3600, 24),
        closed_until(t, 3600),
    );
    lemma_prepend_stretch::<A>(
        history,
        s + m + h,
        d,
        rotation_begin(t, 86_400, 7),
        closed_until(t, 86_400),
    );
    lemma_prepend_stretch::<A>(
        history,
        s + m + h + d,
        w,
        rotation_begin(t, 604_800, 52),
        closed_until(t, 604_800),
    );
    lemma_prepend_stretch::<A>(
        history,
        s + m + h + d + w,
        y,
        rotation_begin(t, 31_449_600, 10),
        closed_until(t, 31_449_600),
    );
    assert(history.subrange(0, t) =~= history);
    assert((s + m + h + d + w + y).len() == s.len() + m.len() + h.len() + d.len() + w.len()
        + y.len());
}


/// What the wheels answer to a gap between the history and a range: the
/// combination of the ticks of the gap, which is the identity where the
/// gap is empty.
pub proof fn lemma_gap_is_scan<A: Aggregator>(
    view: HawView<A::PartialAggregate>,
    history: Seq<A::PartialAggregate>,
    gap: WheelRange,
)
    requires
        retains::<A>(view, history),
        first_second(view, history) <= gap.start.secs() <= gap.end.secs() <= first_second(
            view,
            history,
        ) + history.len(),
    ensures
        or_identity::<A>(wheel_aggregation::<A>(view, gap)) == scanned::<A>(view, history, gap),
{
    if gap.start.secs() < gap.end.secs() {
        lemma_wheel_aggregation_is_scan::<A>(view, history, gap);
    } else {
        let at = gap.start.secs() - first_second(view, history);
        assert(history.subrange(at, at) =~= Seq::empty());
    }
}

/// How an inverse landmark plan with one gap and with two gaps unfolds.
pub proof fn lemma_inverse_unfolds<A: Aggregator>(
    view: HawView<A::PartialAggregate>,
    first: WheelAggregation,
    second: WheelAggregation,
)
    ensures
        inverse_result::<A>(view, seq![first]) == A::combine_inverse_spec(
            or_identity::<A>(landmark_of::<A>(view).0),
            or_identity::<A>(wheel_aggregation::<A>(view, first.range)),
        ),
        inverse_result::<A>(view, seq![first, second]) == A::combine_inverse_spec(
            inverse_result::<A>(view, seq![first]),
            or_identity::<A>(wheel_aggregation::<A>(view, second.range)),
        ),
{
    let none = Seq::<WheelAggregation>::empty();
    assert(seq![first].drop_last() =~= none);
    assert(seq![first, second].drop_last() =~= seq![first]);
    assert(inverse_result::<A>(view, none) == or_identity::<A>(landmark_of::<A>(view).0));
}

/// In a group, taking the ticks before a stretch and the ticks after it
/// out of the combination of a history leaves the combination of the
/// stretch.
pub proof fn lemma_take_out<A: Aggregator>(history: Seq<A::PartialAggregate>, a: int, b: int)
    requires
        A::invertible_spec(),
        0 <= a <= b <= history.len(),
    ensures
        A::combine_inverse_spec(fold::<A>(history), fold::<A>(history.subrange(0, a))) == fold::<A>(
            history.subrange(a, history.len() as int),
        ),
        A::combine_inverse_spec(
            fold::<A>(history.subrange(a, history.len() as int)),
            fold::<A>(history.subrange(b, history.len() as int)),
        ) == fold::<A>(history.subrange(a, b)),
        b == history.len() ==> history.subrange(a, history.len() as int) == history.subrange(a, b),
{
    let t = history.len() as int;
    let head = fold::<A>(history.subrange(0, a));
    let body = fold::<A>(history.subrange(a, b));
    let tail = fold::<A>(history.subrange(b, t));
    let rest = fold::<A>(history.subrange(a, t));
    assert(history.subrange(0, t) =~= history);
    lemma_fold_split::<A>(history, 0, a, t);
    lemma_fold_split::<A>(history, a, b, t);
    A::lemma_inverse(head, rest);
    A::lemma_inverse(body, tail);
}

/// The gaps that an inverse landmark takes out, and what the wheels
/// answer to them: the scan of the ticks before the range and, where the
/// range ends before the watermark, of the ticks after it.
pub proof fn lemma_gaps_are_scans<A: Aggregator>(
    view: HawView<A::PartialAggregate>,
    history: Seq<A::PartialAggregate>,
    range: WheelRange,
)
    requires
        retains::<A>(view, history),
        spans(view, history, range),
    ensures
        inverse_gaps(view, range).len() == if range.end.secs() < first_second(view, history)
            + history.len() {
            2int
        } else {
            1int
        },
        or_identity::<A>(wheel_aggregation::<A>(view, inverse_gaps(view, range)[0].range))
            == fold::<A>(
            history.subrange(0, range.start.secs() - first_second(view, history)),
        ),
        inverse_gaps(view, range).len() == 2 ==> or_identity::<A>(
            wheel_aggregation::<A>(view, inverse_gaps(view, range)[1].range),
        ) == fold::<A>(
            history.subrange(
                range.end.secs() - first_second(view, history),
                history.len() as int,
            ),
        ),
{
    let t = history.len() as int;
    let base = first_second(view, history);
    lemma_retained_times::<A>(view, history);
    DateTime::lemma_secs_at(base);
    DateTime::lemma_secs_at(base + t);
    let before = WheelRange { start: DateTime::at(base), end: range.start };
    let after = WheelRange { start: range.end, end: DateTime::at(base + t) };
    lemma_gap_is_scan::<A>(view, history, before);
    lemma_gap_is_scan::<A>(view, history, after);
    assert(inverse_gaps(view, range)[0].range == before);
    if range.end.secs() < base + t {
        assert(range.end.secs() * 1000 < view.watermark);
        assert(inverse_gaps(view, range)[1].range == after);
    } else {
        assert(!(range.end.secs() * 1000 < view.watermark));
    }
}

/// Taking the gaps before and after a range out of the landmark leaves the
/// scan of the range.
pub proof fn lemma_inverse_is_scan<A: Aggregator>(
    view: HawView<A::PartialAggregate>,
    history: Seq<A::PartialAggregate>,
    range: WheelRange,
)
    requires
        A::invertible_spec(),
        A::commutative_spec(),
        retains::<A>(view, history),
        spans(view, history, range),
    ensures
        inverse_result::<A>(view, inverse_gaps(view, range)) == scanned::<A>(
            view,
            history,
            range,
        ),
{
    let base = first_second(view, history);
    let a = range.start.secs() - base;
    let b = range.end.secs() - base;
    let gaps = inverse_gaps(view, range);
    lemma_retained_times::<A>(view, history);
    lemma_landmark_is_history::<A>(view, history);
    lemma_gaps_are_scans::<A>(view, history, range);
    lemma_take_out::<A>(history, a, b);
    if gaps.len() == 2 {
        lemma_inverse_unfolds::<A>(view, gaps[0], gaps[1]);
        assert(gaps =~= seq![gaps[0], gaps[1]]);
    } else {
        lemma_inverse_unfolds::<A>(view, gaps[0], gaps[0]);
        assert(gaps =~= seq![gaps[0]]);
    }
}

/// The scan of each of a list of sub-ranges, given by their seconds.
pub open spec fn piece_scans<A: Aggregator>(
    history: Seq<A::PartialAggregate>,
    base: int,
    pieces: Seq<(int, int)>,
) -> Seq<A::PartialAggregate> {
    Seq::new(
        pieces.len(),
        |i: int| fold::<A>(history.subrange(pieces[i].0 - base, pieces[i].1 - base)),
    )
}

/// The scans of the sub-ranges that a range is split into combine, in
/// order of time, to the scan of the range.
pub proof fn lemma_split_scans<A: Aggregator>(
    history: Seq<A::PartialAggregate>,
    base: int,
    start: int,
    end: int,
)
    requires
        base <= start < end <= base + history.len(),
    ensures
        split_spec(start, end).len() >= 1,
        fold::<A>(piece_scans::<A>(history, base, split_spec(start, end))) == fold::<A>(
            history.subrange(start - base, end - base),
        ),
    decreases end - start,
{
    let stop = next_end(start, end, day_of_month(start));
    lemma_next_end_bounds(start, end, day_of_month(start));
    let rest = split_spec(stop, end);
    let all = split_spec(start, end);
    assert(all =~= seq![(start, stop)] + rest);
    let first = fold::<A>(history.subrange(start - base, stop - base));
    let scans = piece_scans::<A>(history, base, all);
    let rest_scans = piece_scans::<A>(history, base, rest);
    assert(scans =~= seq![first] + rest_scans);
    lemma_fold_concat::<A>(seq![first], rest_scans);
    lemma_fold_single::<A>(first);
    if stop < end {
        lemma_split_scans::<A>(history, base, stop, end);
        lemma_fold_split::<A>(history, start - base, stop - base, end - base);
    } else {
        assert(rest =~= Seq::empty());
        assert(rest_scans =~= Seq::empty());
        A::lemma_identity(first);
    }
}

/// The wheels answer each sub-range that a range is split into with the
/// scan of the sub-range.
pub proof fn lemma_pieces_answered<A: Aggregator>(
    view: HawView<A::PartialAggregate>,
    history: Seq<A::PartialAggregate>,
    range: WheelRange,
)
    requires
        retains::<A>(view, history),
        spans(view, history, range),
    ensures
        all_answered::<A>(view, plans_of(view, split_ranges(range))),
        answers::<A>(view, plans_of(view, split_ranges(range))) == piece_scans::<A>(
            history,
            first_second(view, history),
            split_spec(range.start.secs(), range.end.secs()),
        ),
{
    let base = first_second(view, history);
    let start = range.start.secs();
    let end = range.end.secs();
    let pieces = split_spec(start, end);
    let plans = plans_of(view, split_ranges(range));
    range.start.lemma_secs_bounded();
    range.end.lemma_secs_bounded();
    lemma_split_partitions(start, end);
    assert forall|i: int| 0 <= i < plans.len() implies (#[trigger] wheel_aggregation::<A>(
        view,
        plans[i].range,
    )) == Some(fold::<A>(history.subrange(pieces[i].0 - base, pieces[i].1 - base))) by {
        let piece = pieces[i];
        assert(start <= piece.0 < piece.1 <= end);
        DateTime::lemma_secs_at(piece.0);
        DateTime::lemma_secs_at(piece.1);
        assert(plans[i].range == range_at(piece));
        lemma_wheel_aggregation_is_scan::<A>(view, history, range_at(piece));
    }
    assert(answers::<A>(view, plans) =~= piece_scans::<A>(history, base, pieces));
}

/// Where `combine` is commutative, the combined plan over the split range
/// answers with the scan of the range.
pub proof fn lemma_combined_is_scan<A: Aggregator>(
    view: HawView<A::PartialAggregate>,
    history: Seq<A::PartialAggregate>,
    range: WheelRange,
)
    requires
        A::commutative_spec(),
        retains::<A>(view, history),
        spans(view, history, range),
    ensures
        combined_result::<A>(view, combined_plan(view, split_ranges(range))) == Some(
            scanned::<A>(view, history, range),
        ),
{
    let base = first_second(view, history);
    let plans = plans_of(view, split_ranges(range));
    lemma_pieces_answered::<A>(view, history, range);
    lemma_split_scans::<A>(history, base, range.start.secs(), range.end.secs());
    lemma_by_granularity_answered::<A>(view, plans);
    lemma_order_is_unseen::<A>(view, plans);
    lemma_combined_is_fold::<A>(view, by_granularity(plans));
    assert(plans.len() >= 1);
}

/// Every plan is as good as a scan: where the wheels hold the history and
/// have dropped nothing of it, and `combine` is commutative, a range query
/// over seconds of the history answers with their scan, second by second,
/// whichever plan it is executed by.
pub proof fn lemma_query_is_scan<A: Aggregator>(
    view: HawView<A::PartialAggregate>,
    history: Seq<A::PartialAggregate>,
    optimizer: Optimizer,
    range: WheelRange,
)
    requires
        A::commutative_spec(),
        retains::<A>(view, history),
        spans(view, history, range),
    ensures
        combine_range_of::<A>(view, optimizer, range).0 == Some(
            scanned::<A>(view, history, range),
        ),
{
    let t = history.len() as int;
    let base = first_second(view, history);
    lemma_retained_times::<A>(view, history);
    lemma_landmark_is_history::<A>(view, history);
    lemma_wheel_aggregation_is_scan::<A>(view, history, range);
    lemma_combined_is_scan::<A>(view, history, range);
    if A::invertible_spec() {
        lemma_inverse_is_scan::<A>(view, history, range);
    }
    if landmark_covers(view, range) {
        assert(range.start.secs() == base && range.end.secs() == base + t);
        assert(history.subrange(0, t) =~= history);
    }
}

/// For a group whose `combine` is commutative, and where the wheels hold
/// the history and have dropped nothing of it, the inverse landmark plan
/// and the combined plan answer a range over seconds of the history alike.
pub proof fn lemma_inverse_agrees_with_combined<A: Aggregator>(
    view: HawView<A::PartialAggregate>,
    history: Seq<A::PartialAggregate>,
    range: WheelRange,
)
    requires
        A::invertible_spec(),
        A::commutative_spec(),
        retains::<A>(view, history),
        spans(view, history, range),
    ensures
        execute::<A>(view, PlanView::InverseLandmarkAggregation(inverse_gaps(view, range))).0
            == execute::<A>(
            view,
            PlanView::CombinedAggregation(combined_plan(view, split_ranges(range))),
        ).0,
{
    lemma_inverse_is_scan::<A>(view, history, range);
    lemma_combined_is_scan::<A>(view, history, range);
}

/// Switching the layout of the wheels from seconds to days leaves the
/// wheels holding the history, with nothing dropped.
pub proof fn lemma_conversion_retains<A: Aggregator>(
    view: HawView<A::PartialAggregate>,
    history: Seq<A::PartialAggregate>,
    layout: DataLayout,
)
    requires
        retains::<A>(view, history),
        view.seconds.wheel is Some,
        view.minutes.wheel is Some,
        view.hours.wheel is Some,
        view.days.wheel is Some,
    ensures
        retains::<A>(converted_view(view, layout), history),
{
    reveal(retains);
    reveal(wheels_in_shape);
    reveal(wheels_hold);
}

/// Prefix and array layout agree on kept history: where the wheels hold
/// the history and have dropped nothing of it, and `combine` is
/// commutative, a range query over seconds of the history answers the same
/// after the wheels from seconds to days have been switched to another
/// layout.
pub proof fn lemma_layouts_agree_on_kept_history<A: Aggregator>(
    view: HawView<A::PartialAggregate>,
    history: Seq<A::PartialAggregate>,
    optimizer: Optimizer,
    layout: DataLayout,
    range: WheelRange,
)
    requires
        A::commutative_spec(),
        retains::<A>(view, history),
        spans(view, history, range),
        view.seconds.wheel is Some,
        view.minutes.wheel is Some,
        view.hours.wheel is Some,
        view.days.wheel is Some,
    ensures
        combine_range_of::<A>(converted_view(view, layout), optimizer, range).0
            == combine_range_of::<A>(view, optimizer, range).0,
{
    let after = converted_view(view, layout);
    lemma_conversion_retains::<A>(view, history, layout);
    lemma_query_is_scan::<A>(view, history, optimizer, range);
    lemma_query_is_scan::<A>(after, history, optimizer, range);
}

/// Whether the wheels from seconds to days keep every slot.
pub open spec fn keeps_history<P>(view: HawView<P>) -> bool {
    &&& view.seconds.conf.retention == RetentionPolicy::Keep
    &&& view.minutes.conf.retention == RetentionPolicy::Keep
    &&& view.hours.conf.retention == RetentionPolicy::Keep
    &&& view.days.conf.retention == RetentionPolicy::Keep
}

/// A hierarchy that has only been ticked, whose wheels from seconds to
/// days keep every slot, that began at a midnight and is in its first
/// cycle answers a range query over seconds of its history with their
/// scan, where `combine` is commutative.
pub proof fn lemma_kept_history_is_scanned<A: Aggregator>(haw: Haw<A>, range: WheelRange)
    requires
        A::commutative_spec(),
        haw.wf(),
        haw.consistent(),
        keeps_history(haw@),
        (haw@.watermark - haw.history().len() * 1000) % 86_400_000 == 0,
        haw.history().len() < TOTAL_SECS_IN_WHEEL,
        spans(haw@, haw.history(), range),
    ensures
        combine_range_of::<A>(haw@, haw.conf_spec().optimizer, range).0 == Some(
            scanned::<A>(haw@, haw.history(), range),
        ),
{
    haw.lemma_wf();
    haw.lemma_consistent();
    let t = haw.history().len() as int;
    assert(t / 1 <= t && t / 60 <= t && t / 3600 <= t && t / 86_400 <= t);
    assert(retains::<A>(haw@, haw.history())) by {
        reveal(retains);
    }
    lemma_query_is_scan::<A>(haw@, haw.history(), haw.conf_spec().optimizer, range);
}

} // verus!
