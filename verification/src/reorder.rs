use crate::aggregator::Aggregator;
use crate::aggregator::fold;
use crate::aggregator::fold_some;
use crate::aggregator::lemma_fold_concat;
use crate::aggregator::lemma_fold_push;
use crate::plan::WheelAggregation;
use crate::query::by_granularity;
use crate::query::combined_result;
use crate::query::of_rank;
use crate::query::or_identity;
use crate::query::wheel_aggregation;
use crate::state::HawView;
use vstd::prelude::*;

verus! {

/// What the wheels answer to each of a list of aggregations, the identity
/// standing for no answer.
pub open spec fn answers<A: Aggregator>(
    view: HawView<A::PartialAggregate>,
    aggregations: Seq<WheelAggregation>,
) -> Seq<A::PartialAggregate> {
    Seq::new(
        aggregations.len(),
        |i: int| or_identity::<A>(wheel_aggregation::<A>(view, aggregations[i].range)),
    )
}

/// Whether the wheels have an answer to each of a list of aggregations.
pub open spec fn all_answered<A: Aggregator>(
    view: HawView<A::PartialAggregate>,
    aggregations: Seq<WheelAggregation>,
) -> bool {
    forall|i: int|
        0 <= i < aggregations.len() ==> (#[trigger] wheel_aggregation::<A>(
            view,
            aggregations[i].range,
        )) is Some
}

/// Where `combine` is commutative, a partial aggregate that stands in the
/// middle of a sequence can be combined last.
pub proof fn lemma_fold_insert<A: Aggregator>(
    before: Seq<A::PartialAggregate>,
    partial: A::PartialAggregate,
    after: Seq<A::PartialAggregate>,
)
    requires
        A::commutative_spec(),
    ensures
        fold::<A>(before.push(partial) + after) == A::combine_spec(
            fold::<A>(before + after),
            partial,
        ),
{
    lemma_fold_concat::<A>(before.push(partial), after);
    lemma_fold_push::<A>(before, partial);
    lemma_fold_concat::<A>(before, after);
    A::lemma_associative(fold::<A>(before), partial, fold::<A>(after));
    A::lemma_commutative(partial, fold::<A>(after));
    A::lemma_associative(fold::<A>(before), fold::<A>(after), partial);
}

/// A combined plan whose sub-ranges are all answered answers with the
/// combination of the answers, in the order of the plan.
pub proof fn lemma_combined_is_fold<A: Aggregator>(
    view: HawView<A::PartialAggregate>,
    aggregations: Seq<WheelAggregation>,
)
    requires
        all_answered::<A>(view, aggregations),
    ensures
        combined_result::<A>(view, aggregations) == fold_some::<A>(
            answers::<A>(view, aggregations),
        ),
    decreases aggregations.len(),
{
    if aggregations.len() > 0 {
        let rest = aggregations.drop_last();
        let last = aggregations.last();
        assert forall|i: int| 0 <= i < rest.len() implies (#[trigger] wheel_aggregation::<A>(
            view,
            rest[i].range,
        )) is Some by {
            assert(rest[i] == aggregations[i]);
        }
        lemma_combined_is_fold::<A>(view, rest);
        assert(wheel_aggregation::<A>(view, aggregations[aggregations.len() - 1].range) is Some);
        let answer = or_identity::<A>(wheel_aggregation::<A>(view, last.range));
        assert(answers::<A>(view, aggregations) =~= answers::<A>(view, rest).push(answer));
        crate::aggregator::lemma_combine_or_insert_fold::<A>(answers::<A>(view, rest), answer);
    } else {
        assert(answers::<A>(view, aggregations) =~= Seq::empty());
    }
}

/// The aggregations of one granularity are among those of the list.
pub proof fn lemma_of_rank_answered<A: Aggregator>(
    view: HawView<A::PartialAggregate>,
    aggregations: Seq<WheelAggregation>,
    rank: int,
)
    requires
        all_answered::<A>(view, aggregations),
    ensures
        all_answered::<A>(view, of_rank(aggregations, rank)),
    decreases aggregations.len(),
{
    if aggregations.len() > 0 {
        let rest = aggregations.drop_last();
        assert forall|i: int| 0 <= i < rest.len() implies (#[trigger] wheel_aggregation::<A>(
            view,
            rest[i].range,
        )) is Some by {
            assert(rest[i] == aggregations[i]);
        }
        lemma_of_rank_answered::<A>(view, rest, rank);
        assert(wheel_aggregation::<A>(view, aggregations[aggregations.len() - 1].range) is Some);
    }
}

/// What is answered to two lists is answered to the two joined.
pub proof fn lemma_answers_concat<A: Aggregator>(
    view: HawView<A::PartialAggregate>,
    first: Seq<WheelAggregation>,
    second: Seq<WheelAggregation>,
)
    ensures
        answers::<A>(view, first + second) == answers::<A>(view, first) + answers::<A>(
            view,
            second,
        ),
        all_answered::<A>(view, first) && all_answered::<A>(view, second) ==> all_answered::<A>(
            view,
            first + second,
        ),
{
    assert(answers::<A>(view, first + second) =~= answers::<A>(view, first) + answers::<A>(
        view,
        second,
    ));
    if all_answered::<A>(view, first) && all_answered::<A>(view, second) {
        assert forall|i: int| 0 <= i < (first + second).len() implies (
        #[trigger] wheel_aggregation::<A>(view, (first + second)[i].range)) is Some by {
            if i < first.len() {
                assert((first + second)[i] == first[i]);
                assert(wheel_aggregation::<A>(view, first[i].range) is Some);
            } else {
                assert((first + second)[i] == second[i - first.len()]);
                assert(wheel_aggregation::<A>(view, second[i - first.len()].range) is Some);
            }
        }
    }
}

/// Ordering a plan by granularity keeps every sub-range, so every
/// sub-range is still answered.
pub proof fn lemma_by_granularity_answered<A: Aggregator>(
    view: HawView<A::PartialAggregate>,
    aggregations: Seq<WheelAggregation>,
)
    requires
        all_answered::<A>(view, aggregations),
    ensures
        all_answered::<A>(view, by_granularity(aggregations)),
{
    let r0 = of_rank(aggregations, 0);
    let r1 = of_rank(aggregations, 1);
    let r2 = of_rank(aggregations, 2);
    let r3 = of_rank(aggregations, 3);
    lemma_of_rank_answered::<A>(view, aggregations, 0);
    lemma_of_rank_answered::<A>(view, aggregations, 1);
    lemma_of_rank_answered::<A>(view, aggregations, 2);
    lemma_of_rank_answered::<A>(view, aggregations, 3);
    lemma_answers_concat::<A>(view, r0, r1);
    lemma_answers_concat::<A>(view, r0 + r1, r2);
    lemma_answers_concat::<A>(view, r0 + r1 + r2, r3);
}

/// Where `combine` is commutative, ordering a plan by granularity does not
/// change the combination of its answers, nor the count of its sub-ranges.
pub proof fn lemma_order_is_unseen<A: Aggregator>(
    view: HawView<A::PartialAggregate>,
    aggregations: Seq<WheelAggregation>,
)
    requires
        A::commutative_spec(),
    ensures
        by_granularity(aggregations).len() == aggregations.len(),
        fold::<A>(answers::<A>(view, by_granularity(aggregations))) == fold::<A>(
            answers::<A>(view, aggregations),
        ),
    decreases aggregations.len(),
{
    if aggregations.len() == 0 {
        assert(by_granularity(aggregations) =~= aggregations);
    } else {
        let rest = aggregations.drop_last();
        let last = aggregations.last();
        let answer = or_identity::<A>(wheel_aggregation::<A>(view, last.range));
        lemma_order_is_unseen::<A>(view, rest);
        let r0 = of_rank(rest, 0);
        let r1 = of_rank(rest, 1);
        let r2 = of_rank(rest, 2);
        let r3 = of_rank(rest, 3);
        let rank = last.range.granularity().rank();
        // the sub-ranges that are ordered before and after the last one
        let before = if rank == 0 {
            r0
        } else if rank == 1 {
            r0 + r1
        } else if rank == 2 {
            r0 + r1 + r2
        } else {
            r0 + r1 + r2 + r3
        };
        let after = if rank == 0 {
            r1 + r2 + r3
        } else if rank == 1 {
            r2 + r3
        } else if rank == 2 {
            r3
        } else {
            Seq::empty()
        };
        assert(by_granularity(rest) =~= before + after);
        assert(by_granularity(aggregations) =~= before.push(last) + after);
        lemma_answers_concat::<A>(view, before, after);
        lemma_answers_concat::<A>(view, before.push(last), after);
        assert(answers::<A>(view, before.push(last)) =~= answers::<A>(view, before).push(answer));
        lemma_fold_insert::<A>(answers::<A>(view, before), answer, answers::<A>(view, after));
        assert(answers::<A>(view, aggregations) =~= answers::<A>(view, rest).push(answer));
        lemma_fold_push::<A>(answers::<A>(view, rest), answer);
    }
}

} // verus!
