use crate::range::WheelRange;
use vstd::prelude::*;

verus! {

/// Combines that a landmark aggregation takes: one between each pair of
/// neighbours among the six wheel totals.
pub const LANDMARK_COST: usize = 5;

/// Combines that a prefix-sum range takes.
pub const PREFIX_COST: usize = 1;

/// How one wheel answers a range.
#[derive(Debug, Clone, Copy, PartialEq, Eq)]
pub enum Aggregation {
    /// Slot by slot, over this many slots
    Scan(usize),
    /// From two prefix sums
    Prefix,
}

impl Aggregation {
    /// Combines that the aggregation takes.
    pub open spec fn cost_spec(self) -> int {
        match self {
            Aggregation::Scan(slots) => slots as int,
            Aggregation::Prefix => PREFIX_COST as int,
        }
    }

    pub fn cost(&self) -> (cost: usize)
        ensures
            cost == self.cost_spec(),
    {
        match self {
            Aggregation::Scan(slots) => *slots,
            Aggregation::Prefix => PREFIX_COST,
        }
    }
}

/// A range and how the wheel of its granularity answers it.
#[derive(Debug, Clone, Copy, PartialEq, Eq)]
pub struct WheelAggregation {
    pub range: WheelRange,
    pub plan: Aggregation,
}

impl WheelAggregation {
    pub fn new(range: WheelRange, plan: Aggregation) -> (aggregation: Self)
        ensures
            aggregation.range == range,
            aggregation.plan == plan,
    {
        WheelAggregation { range, plan }
    }

    pub fn is_prefix(&self) -> (prefix: bool)
        ensures
            prefix == (self.plan is Prefix),
    {
        match self.plan {
            Aggregation::Prefix => true,
            Aggregation::Scan(_) => false,
        }
    }

    pub fn cost(&self) -> (cost: usize)
        ensures
            cost == self.plan.cost_spec(),
    {
        self.plan.cost()
    }
}

/// The costs of a list of wheel aggregations, added up.
pub open spec fn sum_costs(aggregations: Seq<WheelAggregation>) -> int
    decreases aggregations.len(),
{
    if aggregations.len() == 0 {
        0
    } else {
        sum_costs(aggregations.drop_last()) + aggregations.last().plan.cost_spec()
    }
}

/// A cost as the machine holds it: capped at the largest `usize`.
pub open spec fn capped(cost: int) -> int {
    if cost > usize::MAX {
        usize::MAX as int
    } else {
        cost
    }
}

pub proof fn lemma_sum_costs_nonnegative(aggregations: Seq<WheelAggregation>)
    ensures
        sum_costs(aggregations) >= 0,
    decreases aggregations.len(),
{
    if aggregations.len() > 0 {
        lemma_sum_costs_nonnegative(aggregations.drop_last());
    }
}

/// Adds up the costs of `aggregations`, stopping at the largest `usize`.
pub fn total_cost(aggregations: &Vec<WheelAggregation>) -> (cost: usize)
    ensures
        cost == capped(sum_costs(aggregations@)),
{
    let mut cost: usize = 0;
    let mut i: usize = 0;
    assert(aggregations@.subrange(0, 0) =~= Seq::empty());
    while i < aggregations.len()
        invariant
            0 <= i <= aggregations@.len(),
            cost == capped(sum_costs(aggregations@.subrange(0, i as int))),
        decreases aggregations@.len() - i,
    {
        proof {
            assert(aggregations@.subrange(0, i + 1).drop_last() =~= aggregations@.subrange(
                0,
                i as int,
            ));
            lemma_sum_costs_nonnegative(aggregations@.subrange(0, i as int));
        }
        cost = cost.saturating_add(aggregations[i].cost());
        i += 1;
    }
    assert(aggregations@.subrange(0, aggregations@.len() as int) =~= aggregations@);
    cost
}

/// Sub-ranges of a range with the plan of each, combined in the order given.
#[derive(Debug, Clone, PartialEq, Eq)]
pub struct CombinedAggregation {
    pub aggregations: Vec<WheelAggregation>,
}

impl CombinedAggregation {
    pub fn from(aggregations: Vec<WheelAggregation>) -> (combined: Self)
        ensures
            combined.aggregations == aggregations,
    {
        CombinedAggregation { aggregations }
    }

    pub open spec fn cost_spec(self) -> int {
        capped(sum_costs(self.aggregations@))
    }

    pub fn cost(&self) -> (cost: usize)
        ensures
            cost == self.cost_spec(),
    {
        total_cost(&self.aggregations)
    }
}

/// The four ways to answer a range query.
#[derive(Debug, Clone, PartialEq, Eq)]
pub enum ExecutionPlan {
    /// One wheel answers the whole range.
    WheelAggregation(WheelAggregation),
    /// Several wheels answer a sub-range each.
    CombinedAggregation(CombinedAggregation),
    /// The totals of all wheels are combined.
    LandmarkAggregation,
    /// What lies outside the range is taken out of the landmark.
    InverseLandmarkAggregation(Vec<WheelAggregation>),
}

/// An execution plan, apart from how its lists are stored.
pub enum PlanView {
    WheelAggregation(WheelAggregation),
    CombinedAggregation(Seq<WheelAggregation>),
    LandmarkAggregation,
    InverseLandmarkAggregation(Seq<WheelAggregation>),
}

impl PlanView {
    /// Combines that the plan takes, capped at the largest `usize`.
    pub open spec fn cost(self) -> int {
        match self {
            PlanView::WheelAggregation(aggregation) => aggregation.plan.cost_spec(),
            PlanView::CombinedAggregation(aggregations) => capped(sum_costs(aggregations)),
            PlanView::LandmarkAggregation => LANDMARK_COST as int,
            PlanView::InverseLandmarkAggregation(gaps) => capped(
                LANDMARK_COST + capped(sum_costs(gaps)),
            ),
        }
    }

    /// Whether the plan takes a constant number of combines: a prefix-sum
    /// range on one wheel, or the landmark.
    pub open spec fn is_prefix_or_landmark(self) -> bool {
        match self {
            PlanView::WheelAggregation(aggregation) => aggregation.plan is Prefix,
            PlanView::LandmarkAggregation => true,
            _ => false,
        }
    }
}

/// The cheaper of two plans; the first where they cost the same.
pub open spec fn cheaper_of(first: PlanView, second: PlanView) -> PlanView {
    if second.cost() < first.cost() {
        second
    } else {
        first
    }
}

impl View for ExecutionPlan {
    type V = PlanView;

    open spec fn view(&self) -> PlanView {
        match self {
            ExecutionPlan::WheelAggregation(aggregation) => PlanView::WheelAggregation(
                *aggregation,
            ),
            ExecutionPlan::CombinedAggregation(combined) => PlanView::CombinedAggregation(
                combined.aggregations@,
            ),
            ExecutionPlan::LandmarkAggregation => PlanView::LandmarkAggregation,
            ExecutionPlan::InverseLandmarkAggregation(gaps) => PlanView::InverseLandmarkAggregation(
                gaps@,
            ),
        }
    }
}

impl ExecutionPlan {
    pub fn cost(&self) -> (cost: usize)
        ensures
            cost == self@.cost(),
    {
        match self {
            ExecutionPlan::WheelAggregation(aggregation) => aggregation.cost(),
            ExecutionPlan::CombinedAggregation(combined) => combined.cost(),
            ExecutionPlan::LandmarkAggregation => LANDMARK_COST,
            ExecutionPlan::InverseLandmarkAggregation(gaps) => LANDMARK_COST.saturating_add(
                total_cost(gaps),
            ),
        }
    }

    pub fn is_prefix_or_landmark(&self) -> (constant: bool)
        ensures
            constant == self@.is_prefix_or_landmark(),
    {
        match self {
            ExecutionPlan::WheelAggregation(aggregation) => aggregation.is_prefix(),
            ExecutionPlan::LandmarkAggregation => true,
            _ => false,
        }
    }

    /// The cheaper of two plans; this one where they cost the same.
    pub fn cheaper(self, other: ExecutionPlan) -> (best: ExecutionPlan)
        ensures
            best@ == cheaper_of(self@, other@),
    {
        if other.cost() < self.cost() {
            other
        } else {
            self
        }
    }
}

} // verus!
