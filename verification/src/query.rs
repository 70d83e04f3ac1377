use crate::aggregator::Aggregator;
use crate::aggregator::combine_or_insert_spec;
use crate::conf::DataLayout;
use crate::conf::Optimizer;
use crate::datetime::DateTime;
use crate::datetime::in_calendar;
use crate::granularity::Granularity;
use crate::maybe::maybe_aggregate;
use crate::maybe::maybe_total;
use crate::maybe::MaybeView;
use crate::plan::Aggregation;
use crate::plan::capped;
use crate::plan::cheaper_of;
use crate::plan::PlanView;
use crate::plan::sum_costs;
use crate::plan::WheelAggregation;
use crate::range::split_ranges;
use crate::range::WheelRange;
use crate::state::HawView;
use vstd::prelude::*;

verus! {

/// The wheel that answers ranges of a granularity.
pub open spec fn wheel_of<P>(view: HawView<P>, granularity: Granularity) -> MaybeView<P> {
    match granularity {
        Granularity::Second => view.seconds,
        Granularity::Minute => view.minutes,
        Granularity::Hour => view.hours,
        Granularity::Day => view.days,
    }
}

/// Slots that a scan of a range is taken to visit: its length in slots of
/// its granularity; the largest number for a reversed range, which no plan
/// can then prefer.
pub open spec fn scan_slots(range: WheelRange) -> usize {
    if range.slots() < 0 || range.slots() > usize::MAX {
        usize::MAX
    } else {
        range.slots() as usize
    }
}

/// How the wheel of its granularity answers a range: with a prefix-sum
/// range where it is laid out so, else with a scan; at no cost where the
/// wheel is not allocated.
pub open spec fn aggregation_plan<P>(view: HawView<P>, range: WheelRange) -> WheelAggregation {
    let wheel = wheel_of(view, range.granularity());
    WheelAggregation {
        range,
        plan: if wheel.wheel is None {
            Aggregation::Scan(0)
        } else if wheel.conf.data_layout == DataLayout::Prefix {
            Aggregation::Prefix
        } else {
            Aggregation::Scan(scan_slots(range))
        },
    }
}

/// What the wheel of its granularity answers to a range.
pub open spec fn wheel_aggregation<A: Aggregator>(
    view: HawView<A::PartialAggregate>,
    range: WheelRange,
) -> Option<A::PartialAggregate> {
    maybe_aggregate::<A>(
        wheel_of(view, range.granularity()),
        range.start.secs(),
        range.slots(),
        range.granularity(),
    )
}

/// One step of reducing the wheel totals: a total that is there is
/// combined into what was reduced so far, and counted where that took a
/// combine.
pub open spec fn reduce_step<A: Aggregator>(
    reduced: (Option<A::PartialAggregate>, int),
    total: Option<A::PartialAggregate>,
) -> (Option<A::PartialAggregate>, int) {
    match (reduced.0, total) {
        (Some(current), Some(partial)) => (
            Some(A::combine_spec(current, partial)),
            reduced.1 + 1,
        ),
        (None, Some(_)) => (total, reduced.1),
        _ => reduced,
    }
}

/// The combination of the totals that are there, in the order given, and
/// the combines that it takes.
pub open spec fn reduce_spec<A: Aggregator>(totals: Seq<Option<A::PartialAggregate>>) -> (
    Option<A::PartialAggregate>,
    int,
)
    decreases totals.len(),
{
    if totals.len() == 0 {
        (None, 0)
    } else {
        reduce_step::<A>(reduce_spec::<A>(totals.drop_last()), totals.last())
    }
}

/// The totals of the six wheels, from seconds to years.
pub open spec fn wheel_totals<A: Aggregator>(view: HawView<A::PartialAggregate>) -> Seq<
    Option<A::PartialAggregate>,
> {
    seq![
        maybe_total::<A>(view.seconds),
        maybe_total::<A>(view.minutes),
        maybe_total::<A>(view.hours),
        maybe_total::<A>(view.days),
        maybe_total::<A>(view.weeks),
        maybe_total::<A>(view.years),
    ]
}

/// The landmark: the combination of the totals of all wheels, and the
/// combines that it takes.
pub open spec fn landmark_of<A: Aggregator>(view: HawView<A::PartialAggregate>) -> (
    Option<A::PartialAggregate>,
    int,
) {
    reduce_spec::<A>(wheel_totals::<A>(view))
}

/// Whether the landmark covers a range: the range starts at or before the
/// start of the cycle and ends at or after the watermark.
pub open spec fn landmark_covers<P>(view: HawView<P>, range: WheelRange) -> bool {
    range.start.secs() * 1000 <= view.wheel_start() && range.end.secs() * 1000
        >= view.watermark
}

/// Whether the range can be had by taking gaps out of the landmark: it
/// starts within the cycle, and the start of the cycle and the watermark
/// are dates of the calendar.
pub open spec fn inverse_applies<P>(view: HawView<P>, range: WheelRange) -> bool {
    &&& view.wheel_start() / 1000 <= range.start.secs()
    &&& in_calendar(view.wheel_start() / 1000)
    &&& in_calendar(view.watermark as int / 1000)
}

/// The gaps between the landmark and a range: from the start of the cycle
/// to the start of the range and, where the range ends before the
/// watermark, from its end to the watermark.
pub open spec fn inverse_gaps<P>(view: HawView<P>, range: WheelRange) -> Seq<WheelAggregation> {
    let before = aggregation_plan(
        view,
        WheelRange { start: DateTime::at(view.wheel_start() / 1000), end: range.start },
    );
    if range.end.secs() * 1000 < view.watermark {
        seq![
            before,
            aggregation_plan(
                view,
                WheelRange { start: range.end, end: DateTime::at(view.watermark as int / 1000) },
            ),
        ]
    } else {
        seq![before]
    }
}

/// The aggregations of the granularity at position `rank`, in the order given.
pub open spec fn of_rank(aggregations: Seq<WheelAggregation>, rank: int) -> Seq<WheelAggregation>
    decreases aggregations.len(),
{
    if aggregations.len() == 0 {
        Seq::empty()
    } else if aggregations.last().range.granularity().rank() == rank {
        of_rank(aggregations.drop_last(), rank).push(aggregations.last())
    } else {
        of_rank(aggregations.drop_last(), rank)
    }
}

/// Aggregations ordered from fine to coarse granularity; those of one
/// granularity stay in the order given.
pub open spec fn by_granularity(aggregations: Seq<WheelAggregation>) -> Seq<WheelAggregation> {
    of_rank(aggregations, 0) + of_rank(aggregations, 1) + of_rank(aggregations, 2) + of_rank(
        aggregations,
        3,
    )
}

/// The plan of each range, in the order given.
pub open spec fn plans_of<P>(view: HawView<P>, ranges: Seq<WheelRange>) -> Seq<WheelAggregation> {
    ranges.map_values(|range: WheelRange| aggregation_plan(view, range))
}

/// The combined plan for a list of sub-ranges: the plan of each, ordered
/// from fine to coarse granularity.
pub open spec fn combined_plan<P>(view: HawView<P>, ranges: Seq<WheelRange>) -> Seq<
    WheelAggregation,
> {
    by_granularity(plans_of(view, ranges))
}

/// Whether a combined plan is worth making against a plan of this cost:
/// always, unless hints are in use and the aggregator has SIMD support;
/// then only where the cost is above the threshold.
pub open spec fn worth_combining<A: Aggregator>(optimizer: Optimizer, cost: int) -> bool {
    if optimizer.use_hints_spec() && A::simd_support_spec() {
        cost > optimizer.heuristics_spec().simd_threshold_spec()
    } else {
        true
    }
}

/// The plan that a range query is executed by: the landmark where it
/// covers the range, else the wheel of the range's granularity; and where
/// that is no constant-time plan, the cheapest of it, the inverse landmark
/// (for a group), and the combined plan over the split range.
pub open spec fn best_plan<A: Aggregator>(
    view: HawView<A::PartialAggregate>,
    optimizer: Optimizer,
    range: WheelRange,
) -> PlanView {
    let first = if landmark_covers(view, range) {
        PlanView::LandmarkAggregation
    } else {
        PlanView::WheelAggregation(aggregation_plan(view, range))
    };
    if first.is_prefix_or_landmark() || range.end.secs() - range.start.secs() < 1 {
        first
    } else {
        let second = if A::invertible_spec() && inverse_applies(view, range) {
            cheaper_of(first, PlanView::InverseLandmarkAggregation(inverse_gaps(view, range)))
        } else {
            first
        };
        if worth_combining::<A>(optimizer, second.cost()) {
            cheaper_of(
                second,
                PlanView::CombinedAggregation(combined_plan(view, split_ranges(range))),
            )
        } else {
            second
        }
    }
}

/// What a combined plan answers: the combination of what the wheels answer
/// to its sub-ranges, in the order of the plan; a sub-range without an
/// answer is passed over.
pub open spec fn combined_result<A: Aggregator>(
    view: HawView<A::PartialAggregate>,
    aggregations: Seq<WheelAggregation>,
) -> Option<A::PartialAggregate>
    decreases aggregations.len(),
{
    if aggregations.len() == 0 {
        None
    } else {
        let so_far = combined_result::<A>(view, aggregations.drop_last());
        match wheel_aggregation::<A>(view, aggregations.last().range) {
            Some(partial) => combine_or_insert_spec::<A>(so_far, partial),
            None => so_far,
        }
    }
}

/// A partial aggregate, or the identity where there is none.
pub open spec fn or_identity<A: Aggregator>(partial: Option<A::PartialAggregate>)
    -> A::PartialAggregate {
    match partial {
        Some(partial) => partial,
        None => A::identity_spec(),
    }
}

/// What an inverse landmark plan answers: the landmark with what the
/// wheels answer to each gap taken out of it, in the order of the plan.
pub open spec fn inverse_result<A: Aggregator>(
    view: HawView<A::PartialAggregate>,
    gaps: Seq<WheelAggregation>,
) -> A::PartialAggregate
    decreases gaps.len(),
{
    if gaps.len() == 0 {
        or_identity::<A>(landmark_of::<A>(view).0)
    } else {
        A::combine_inverse_spec(
            inverse_result::<A>(view, gaps.drop_last()),
            or_identity::<A>(wheel_aggregation::<A>(view, gaps.last().range)),
        )
    }
}

/// What a plan answers, and the combines that it is charged.
pub open spec fn execute<A: Aggregator>(view: HawView<A::PartialAggregate>, plan: PlanView) -> (
    Option<A::PartialAggregate>,
    int,
) {
    match plan {
        PlanView::WheelAggregation(aggregation) => (
            wheel_aggregation::<A>(view, aggregation.range),
            aggregation.plan.cost_spec(),
        ),
        PlanView::CombinedAggregation(aggregations) => (
            combined_result::<A>(view, aggregations),
            capped(sum_costs(aggregations)),
        ),
        PlanView::LandmarkAggregation => landmark_of::<A>(view),
        PlanView::InverseLandmarkAggregation(gaps) => (
            Some(inverse_result::<A>(view, gaps)),
            capped(landmark_of::<A>(view).1 + capped(sum_costs(gaps))),
        ),
    }
}

/// What a range query answers, and the combines that it is charged.
pub open spec fn combine_range_of<A: Aggregator>(
    view: HawView<A::PartialAggregate>,
    optimizer: Optimizer,
    range: WheelRange,
) -> (Option<A::PartialAggregate>, int) {
    execute::<A>(view, best_plan::<A>(view, optimizer, range))
}

} // verus!
