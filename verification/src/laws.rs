use crate::aggregator::Aggregator;
use crate::aggregator::fold_some;
use crate::aggregator::lemma_fold_concat;
use crate::conf::DataLayout;
use crate::conf::Optimizer;
use crate::granularity::Granularity;
use crate::maybe::maybe_total;
use crate::maybe::MaybeView;
use crate::query::combine_range_of;
use crate::query::landmark_of;
use crate::query::reduce_spec;
use crate::query::wheel_aggregation;
use crate::query::wheel_totals;
use crate::range::WheelRange;
use crate::state::advanced;
use crate::state::converted_view;
use crate::state::delta_advanced;
use crate::state::HawState;
use crate::state::HawView;
use crate::wheel::aggregate_of;
use crate::wheel::total_of;
use crate::wheel::WheelView;
use crate::writer::WriterView;
use vstd::prelude::*;

verus! {

/// The slots of the rotation under way of a wheel at rest, oldest first;
/// none where the wheel is not allocated.
pub open spec fn live_of<P>(wheel: MaybeView<P>) -> Seq<P> {
    match wheel.wheel {
        Some(wheel) => wheel.live(),
        None => Seq::empty(),
    }
}

/// The live slots of all wheels, wheel by wheel from seconds to years.
pub open spec fn live_slots<P>(view: HawView<P>) -> Seq<P> {
    live_of(view.seconds) + live_of(view.minutes) + live_of(view.hours) + live_of(view.days)
        + live_of(view.weeks) + live_of(view.years)
}

/// Whether no wheel has anything in its open slot, as is the case between
/// two ticks.
pub open spec fn at_rest<P>(view: HawView<P>) -> bool {
    &&& view.seconds.wheel matches Some(wheel) ==> wheel.head is None
    &&& view.minutes.wheel matches Some(wheel) ==> wheel.head is None
    &&& view.hours.wheel matches Some(wheel) ==> wheel.head is None
    &&& view.days.wheel matches Some(wheel) ==> wheel.head is None
    &&& view.weeks.wheel matches Some(wheel) ==> wheel.head is None
    &&& view.years.wheel matches Some(wheel) ==> wheel.head is None
}

/// Reducing one more total adds its slots to what has been combined.
proof fn lemma_reduce_adds<A: Aggregator>(
    totals: Seq<Option<A::PartialAggregate>>,
    so_far: Seq<A::PartialAggregate>,
    next: Seq<A::PartialAggregate>,
)
    requires
        reduce_spec::<A>(totals).0 == fold_some::<A>(so_far),
    ensures
        reduce_spec::<A>(totals.push(fold_some::<A>(next))).0 == fold_some::<A>(so_far + next),
{
    assert(totals.push(fold_some::<A>(next)).drop_last() =~= totals);
    lemma_fold_concat::<A>(so_far, next);
    if so_far.len() == 0 {
        assert(so_far + next =~= next);
    }
    if next.len() == 0 {
        assert(so_far + next =~= so_far);
    }
}

/// Between two ticks, the landmark is the combination of the live slots of
/// all wheels, and there is none exactly where no wheel has a live slot.
pub proof fn lemma_landmark_is_rollup<A: Aggregator>(view: HawView<A::PartialAggregate>)
    requires
        at_rest(view),
    ensures
        landmark_of::<A>(view).0 == fold_some::<A>(live_slots(view)),
{
    let none = Seq::<Option<A::PartialAggregate>>::empty();
    let empty = Seq::<A::PartialAggregate>::empty();
    let s = live_of(view.seconds);
    let m = live_of(view.minutes);
    let h = live_of(view.hours);
    let d = live_of(view.days);
    let w = live_of(view.weeks);
    let y = live_of(view.years);
    assert(maybe_total::<A>(view.seconds) == fold_some::<A>(s));
    assert(maybe_total::<A>(view.minutes) == fold_some::<A>(m));
    assert(maybe_total::<A>(view.hours) == fold_some::<A>(h));
    assert(maybe_total::<A>(view.days) == fold_some::<A>(d));
    assert(maybe_total::<A>(view.weeks) == fold_some::<A>(w));
    assert(maybe_total::<A>(view.years) == fold_some::<A>(y));
    lemma_reduce_adds::<A>(none, empty, s);
    assert(empty + s =~= s);
    let t1 = none.push(fold_some::<A>(s));
    lemma_reduce_adds::<A>(t1, s, m);
    let t2 = t1.push(fold_some::<A>(m));
    lemma_reduce_adds::<A>(t2, s + m, h);
    let t3 = t2.push(fold_some::<A>(h));
    lemma_reduce_adds::<A>(t3, s + m + h, d);
    let t4 = t3.push(fold_some::<A>(d));
    lemma_reduce_adds::<A>(t4, s + m + h + d, w);
    let t5 = t4.push(fold_some::<A>(w));
    lemma_reduce_adds::<A>(t5, s + m + h + d + w, y);
    let t6 = t5.push(fold_some::<A>(y));
    assert(t6 =~= wheel_totals::<A>(view));
}

/// Prefix and array layout agree: what a wheel answers to a range query,
/// and its total, do not depend on its layout.
pub proof fn lemma_layout_is_unseen<A: Aggregator>(
    wheel: WheelView<A::PartialAggregate>,
    layout: DataLayout,
    start_secs: int,
    n: int,
    granularity: Granularity,
)
    ensures
        aggregate_of::<A>(wheel.with_layout(layout), start_secs, n, granularity) == aggregate_of::<
            A,
        >(wheel, start_secs, n, granularity),
        total_of::<A>(wheel.with_layout(layout)) == total_of::<A>(wheel),
{
    assert(wheel.with_layout(layout).live() =~= wheel.live());
}

/// Prefix and array layout agree over the hierarchy: after the wheels from
/// seconds to days have been switched to another layout, each wheel
/// answers every range as before, and the landmark is as before.
pub proof fn lemma_conversion_is_unseen<A: Aggregator>(
    view: HawView<A::PartialAggregate>,
    layout: DataLayout,
    range: WheelRange,
)
    requires
        view.seconds.wheel is Some,
        view.minutes.wheel is Some,
        view.hours.wheel is Some,
        view.days.wheel is Some,
    ensures
        wheel_aggregation::<A>(converted_view(view, layout), range) == wheel_aggregation::<A>(
            view,
            range,
        ),
        landmark_of::<A>(converted_view(view, layout)) == landmark_of::<A>(view),
{
    let after = converted_view(view, layout);
    assert(after.seconds.wheel.unwrap().live() =~= view.seconds.wheel.unwrap().live());
    assert(after.minutes.wheel.unwrap().live() =~= view.minutes.wheel.unwrap().live());
    assert(after.hours.wheel.unwrap().live() =~= view.hours.wheel.unwrap().live());
    assert(after.days.wheel.unwrap().live() =~= view.days.wheel.unwrap().live());
    assert(wheel_totals::<A>(after) =~= wheel_totals::<A>(view));
}

/// Advancing by one run of deltas and then by another leaves the
/// hierarchy as advancing once by the two runs joined does.
pub proof fn lemma_delta_advance_composes<A: Aggregator>(
    state: HawState<A::PartialAggregate>,
    first: Seq<Option<A::PartialAggregate>>,
    second: Seq<Option<A::PartialAggregate>>,
)
    ensures
        delta_advanced::<A>(delta_advanced::<A>(state, first), second) == delta_advanced::<A>(
            state,
            first + second,
        ),
    decreases second.len(),
{
    if second.len() == 0 {
        assert(first + second =~= first);
    } else {
        lemma_delta_advance_composes::<A>(state, first, second.drop_last());
        assert((first + second).drop_last() =~= first + second.drop_last());
        assert((first + second).last() == second.last());
    }
}

/// Advancing by `first` seconds and then by `second` leaves the hierarchy
/// and its writer as advancing once by `first + second` seconds does, and
/// the windows of the two advances, one after the other, are the windows
/// of the one.
pub proof fn lemma_advance_composes<A: Aggregator>(
    state: HawState<A::PartialAggregate>,
    writer: WriterView<A::MutablePartialAggregate>,
    first: nat,
    second: nat,
)
    ensures
        advanced::<A>(
            advanced::<A>(state, writer, first).0,
            advanced::<A>(state, writer, first).1,
            second,
        ).0 == advanced::<A>(state, writer, first + second).0,
        advanced::<A>(
            advanced::<A>(state, writer, first).0,
            advanced::<A>(state, writer, first).1,
            second,
        ).1 == advanced::<A>(state, writer, first + second).1,
        advanced::<A>(state, writer, first).2 + advanced::<A>(
            advanced::<A>(state, writer, first).0,
            advanced::<A>(state, writer, first).1,
            second,
        ).2 == advanced::<A>(state, writer, first + second).2,
    decreases second,
{
    let mid = advanced::<A>(state, writer, first);
    if second == 0 {
        assert(mid.2 + Seq::<(u64, A::PartialAggregate)>::empty() =~= mid.2);
    } else {
        lemma_advance_composes::<A>(state, writer, first, (second - 1) as nat);
        let before = advanced::<A>(mid.0, mid.1, (second - 1) as nat);
        assert((first + second - 1) as nat == first + (second - 1) as nat);
        let whole = advanced::<A>(state, writer, (first + second - 1) as nat);
        assert(mid.2 + before.2 == whole.2);
        let now = crate::state::second_passed::<A>(before.0, before.1);
        match now.2 {
            Some(window) => {
                assert(mid.2 + before.2.push(window) =~= (mid.2 + before.2).push(window));
            },
            None => {},
        }
    }
}

/// The range from the start of the cycle to the watermark is answered by
/// the landmark, where the watermark is a whole second.
pub proof fn lemma_cycle_range_is_landmark<A: Aggregator>(
    view: HawView<A::PartialAggregate>,
    optimizer: Optimizer,
    range: WheelRange,
)
    requires
        view.watermark % 1000 == 0,
        range.start.secs() == view.wheel_start() / 1000,
        range.end.secs() == view.watermark / 1000,
    ensures
        combine_range_of::<A>(view, optimizer, range) == landmark_of::<A>(view),
{
}

} // verus!
