use crate::aggregator::Aggregator;
use crate::aggregator::fold;
use crate::aggregator::lemma_fold_split;
use crate::conf::RetentionPolicy;
use crate::conf::WheelConf;
use crate::maybe::MaybeView;
use crate::wheel::lemma_rollup_is_fold;
use crate::wheel::rollup;
use crate::wheel::ticked;
use crate::wheel::WheelView;
use vstd::arithmetic::div_mod::lemma_fundamental_div_mod;
use vstd::arithmetic::div_mod::lemma_fundamental_div_mod_converse;
use vstd::arithmetic::mul::lemma_mul_inequality;
use vstd::prelude::*;

verus! {

/// The combination of the `index`-th stretch of `unit` ticks of a history.
pub open spec fn chunk<A: Aggregator>(
    history: Seq<A::PartialAggregate>,
    unit: int,
    index: int,
) -> A::PartialAggregate {
    fold::<A>(history.subrange(index * unit, (index + 1) * unit))
}

/// Slots that a wheel holds after `count` ticks of its own.
pub open spec fn kept(count: int, limit: int) -> int {
    if count <= limit {
        count
    } else {
        limit
    }
}

/// The most slots that a wheel of this configuration retains.
pub open spec fn limit_of(conf: WheelConf) -> int {
    match conf.retention {
        RetentionPolicy::Drop => conf.capacity as int,
        RetentionPolicy::Keep => usize::MAX as int,
    }
}

/// The slots that a wheel of slot length `unit` holds after a history: the
/// last `kept` whole stretches, oldest first.
pub open spec fn expected_slots<A: Aggregator>(
    history: Seq<A::PartialAggregate>,
    unit: int,
    limit: int,
) -> Seq<A::PartialAggregate> {
    let count = history.len() as int / unit;
    let first = count - kept(count, limit);
    Seq::new(kept(count, limit) as nat, |i: int| chunk::<A>(history, unit, first + i))
}

/// The wheel of slot length `unit` seconds after a history of ticks that
/// began at `start_ms`: not allocated before its first tick; then at rest,
/// with one slot for each whole stretch that it retains.
pub open spec fn expected<A: Aggregator>(
    history: Seq<A::PartialAggregate>,
    start_ms: int,
    conf: WheelConf,
    unit: int,
) -> MaybeView<A::PartialAggregate> {
    let count = history.len() as int / unit;
    MaybeView {
        conf,
        wheel: if count == 0 {
            None
        } else {
            Some(
                WheelView {
                    conf,
                    watermark: (start_ms + count * unit * 1000) as u64,
                    slots: expected_slots::<A>(history, unit, limit_of(conf)),
                    head: None,
                    rotation_count: (count % (conf.capacity as int)) as nat,
                },
            )
        },
    }
}

/// Two lazily allocated wheels that differ at most in what their slots hold.
pub open spec fn same_shape<P>(a: MaybeView<P>, b: MaybeView<P>) -> bool {
    &&& a.conf == b.conf
    &&& a.wheel is Some == b.wheel is Some
    &&& a.wheel is Some ==> {
        &&& a.wheel.unwrap().conf == b.wheel.unwrap().conf
        &&& a.wheel.unwrap().watermark == b.wheel.unwrap().watermark
        &&& a.wheel.unwrap().head == b.wheel.unwrap().head
        &&& a.wheel.unwrap().rotation_count == b.wheel.unwrap().rotation_count
        &&& a.wheel.unwrap().slots.len() == b.wheel.unwrap().slots.len()
    }
}

/// How the count of whole stretches moves with one more tick.
pub proof fn lemma_count_step(ticks: int, unit: int)
    requires
        ticks >= 0,
        unit >= 1,
    ensures
        ticks / unit >= 0,
        (ticks / unit) * unit <= ticks,
        (ticks + 1) % unit != 0 ==> (ticks + 1) / unit == ticks / unit,
        (ticks + 1) % unit == 0 ==> (ticks + 1) / unit == ticks / unit + 1 && (ticks / unit + 1)
            * unit == ticks + 1,
{
    lemma_fundamental_div_mod(ticks, unit);
    lemma_fundamental_div_mod(ticks + 1, unit);
    let q = ticks / unit;
    let r = ticks % unit;
    assert(unit * q == q * unit) by (nonlinear_arith);
    assert(unit * (q + 1) == q * unit + unit) by (nonlinear_arith);
    assert(q >= 0) by (nonlinear_arith)
        requires
            ticks == unit * q + r,
            0 <= r < unit,
            ticks >= 0,
            unit >= 1,
    ;
    if r + 1 < unit {
        lemma_fundamental_div_mod_converse(ticks + 1, unit, q, r + 1);
    } else {
        lemma_fundamental_div_mod_converse(ticks + 1, unit, q + 1, 0);
    }
}

/// How the position in a rotation moves with one more tick.
pub proof fn lemma_rotation_step(count: int, capacity: int)
    requires
        count >= 0,
        capacity >= 1,
    ensures
        0 <= count % capacity < capacity,
        (count + 1) % capacity == if count % capacity + 1 == capacity {
            0
        } else {
            count % capacity + 1
        },
{
    lemma_fundamental_div_mod(count, capacity);
    let q = count / capacity;
    let r = count % capacity;
    assert(capacity * q == q * capacity) by (nonlinear_arith);
    assert((q + 1) * capacity == q * capacity + capacity) by (nonlinear_arith);
    if r + 1 < capacity {
        lemma_fundamental_div_mod_converse(count + 1, capacity, q, r + 1);
    } else {
        lemma_fundamental_div_mod_converse(count + 1, capacity, q + 1, 0);
    }
}

/// A wheel completes a rotation with the tick that completes a stretch of
/// the wheel above.
pub proof fn lemma_rotation_reaches(ticks: int, unit: int, capacity: int)
    requires
        ticks >= 0,
        unit >= 1,
        capacity >= 1,
        (ticks + 1) % unit == 0,
    ensures
        unit * capacity >= 1,
        ((ticks / unit) % capacity + 1 == capacity) <==> ((ticks + 1) % (unit * capacity) == 0),
{
    let count = ticks / unit;
    let big = unit * capacity;
    lemma_count_step(ticks, unit);
    lemma_rotation_step(count, capacity);
    assert(big >= 1) by (nonlinear_arith)
        requires
            big == unit * capacity,
            unit >= 1,
            capacity >= 1,
    ;
    if (count + 1) % capacity == 0 {
        let rounds = (count + 1) / capacity;
        lemma_fundamental_div_mod(count + 1, capacity);
        assert(ticks + 1 == rounds * big) by (nonlinear_arith)
            requires
                ticks + 1 == (count + 1) * unit,
                count + 1 == capacity * rounds,
                big == unit * capacity,
        ;
        lemma_fundamental_div_mod_converse(ticks + 1, big, rounds, 0);
    }
    if (ticks + 1) % big == 0 {
        let rounds = (ticks + 1) / big;
        lemma_fundamental_div_mod(ticks + 1, big);
        assert(count + 1 == rounds * capacity) by (nonlinear_arith)
            requires
                ticks + 1 == (count + 1) * unit,
                ticks + 1 == big * rounds,
                big == unit * capacity,
                unit >= 1,
        ;
        lemma_fundamental_div_mod_converse(count + 1, capacity, rounds, 0);
    }
}

/// A tick that completes no stretch of a wheel completes none of the
/// wheel above.
pub proof fn lemma_not_reached(ticks: int, unit: int, capacity: int)
    requires
        ticks >= 0,
        unit >= 1,
        capacity >= 1,
        (ticks + 1) % unit != 0,
    ensures
        unit * capacity >= 1,
        (ticks + 1) % (unit * capacity) != 0,
{
    let big = unit * capacity;
    assert(big >= 1) by (nonlinear_arith)
        requires
            big == unit * capacity,
            unit >= 1,
            capacity >= 1,
    ;
    if (ticks + 1) % big == 0 {
        let rounds = (ticks + 1) / big;
        lemma_fundamental_div_mod(ticks + 1, big);
        assert(ticks + 1 == (capacity * rounds) * unit) by (nonlinear_arith)
            requires
                ticks + 1 == big * rounds,
                big == unit * capacity,
        ;
        lemma_fundamental_div_mod_converse(ticks + 1, unit, capacity * rounds, 0);
    }
}

/// A stretch that lies within a history is not touched by a later tick.
pub proof fn lemma_chunk_stable<A: Aggregator>(
    history: Seq<A::PartialAggregate>,
    partial: A::PartialAggregate,
    unit: int,
    index: int,
)
    requires
        unit >= 1,
        index >= 0,
        (index + 1) * unit <= history.len(),
    ensures
        chunk::<A>(history.push(partial), unit, index) == chunk::<A>(history, unit, index),
{
    assert(0 <= index * unit <= (index + 1) * unit) by (nonlinear_arith)
        requires
            unit >= 1,
            index >= 0,
    ;
    assert(history.push(partial).subrange(index * unit, (index + 1) * unit) =~= history.subrange(
        index * unit,
        (index + 1) * unit,
    ));
}

/// Combining `n` stretches in a row gives the stretch that they make up.
pub proof fn lemma_fold_chunks<A: Aggregator>(
    history: Seq<A::PartialAggregate>,
    unit: int,
    first: int,
    n: int,
)
    requires
        unit >= 1,
        first >= 0,
        n >= 0,
        (first + n) * unit <= history.len(),
    ensures
        first * unit <= (first + n) * unit,
        fold::<A>(Seq::new(n as nat, |i: int| chunk::<A>(history, unit, first + i))) == fold::<A>(
            history.subrange(first * unit, (first + n) * unit),
        ),
    decreases n,
{
    let chunks = Seq::new(n as nat, |i: int| chunk::<A>(history, unit, first + i));
    assert(0 <= first * unit <= (first + n) * unit) by (nonlinear_arith)
        requires
            unit >= 1,
            first >= 0,
            n >= 0,
    ;
    if n == 0 {
        assert(chunks =~= Seq::empty());
        assert(history.subrange(first * unit, (first + n) * unit) =~= Seq::empty());
    } else {
        let mid = (first + n - 1) * unit;
        assert(first * unit <= mid && mid + unit == (first + n) * unit) by (nonlinear_arith)
            requires
                unit >= 1,
                first >= 0,
                n >= 1,
                mid == (first + n - 1) * unit,
        ;
        lemma_fold_chunks::<A>(history, unit, first, n - 1);
        let shorter = Seq::new((n - 1) as nat, |i: int| chunk::<A>(history, unit, first + i));
        assert(chunks.drop_last() =~= shorter);
        assert(chunks.last() == chunk::<A>(history, unit, first + n - 1));
        assert((first + n - 1 + 1) * unit == (first + n) * unit);
        lemma_fold_split::<A>(history, first * unit, mid, (first + n) * unit);
    }
}

/// The expected wheel is well formed.
pub proof fn lemma_expected_well_formed<A: Aggregator>(
    history: Seq<A::PartialAggregate>,
    start_ms: int,
    conf: WheelConf,
    unit: int,
)
    requires
        unit >= 1,
        conf.capacity >= 1,
    ensures
        expected::<A>(history, start_ms, conf, unit).well_formed(),
        expected::<A>(history, start_ms, conf, unit).allocated().well_formed(),
        history.len() as int / unit >= 0,
        expected::<A>(history, start_ms, conf, unit).allocated().slots.len() == kept(
            history.len() as int / unit,
            limit_of(conf),
        ),
        expected::<A>(history, start_ms, conf, unit).allocated().rotation_count == (history.len()
            as int / unit) % (conf.capacity as int),
        expected::<A>(history, start_ms, conf, unit).allocated().head is None,
        expected::<A>(history, start_ms, conf, unit).allocated().conf == conf,
{
    let count = history.len() as int / unit;
    lemma_count_step(history.len() as int, unit);
    lemma_rotation_step(count, conf.capacity as int);
    lemma_fundamental_div_mod(count, conf.capacity as int);
    let q = count / (conf.capacity as int);
    assert(q >= 0 && conf.capacity * q >= 0) by (nonlinear_arith)
        requires
            count == conf.capacity * q + count % (conf.capacity as int),
            0 <= count % (conf.capacity as int) < conf.capacity,
            count >= 0,
            conf.capacity >= 1,
    ;
}

/// A wheel that a tick of the hierarchy does not reach is, after it, what
/// it was before.
pub proof fn lemma_expected_idle<A: Aggregator>(
    history: Seq<A::PartialAggregate>,
    partial: A::PartialAggregate,
    start_ms: int,
    conf: WheelConf,
    unit: int,
)
    requires
        unit >= 1,
        (history.len() as int + 1) % unit != 0,
    ensures
        expected::<A>(history.push(partial), start_ms, conf, unit) == expected::<A>(
            history,
            start_ms,
            conf,
            unit,
        ),
{
    let ticks = history.len() as int;
    let after = history.push(partial);
    lemma_count_step(ticks, unit);
    let count = ticks / unit;
    let limit = limit_of(conf);
    let first = count - kept(count, limit);
    let slots_before = expected_slots::<A>(history, unit, limit);
    let slots_after = expected_slots::<A>(after, unit, limit);
    assert forall|i: int| 0 <= i < slots_before.len() implies #[trigger] slots_after[i]
        == slots_before[i] by {
        lemma_mul_inequality(first + i + 1, count, unit);
        lemma_chunk_stable::<A>(history, partial, unit, first + i);
    }
    assert(slots_after =~= slots_before);
}

/// A wheel that a tick of the hierarchy reaches: written to with what the
/// wheel below rolled up, then ticked, it has the shape that is expected
/// after the tick; and where it held the stretches of the history before
/// and is handed the stretch that the tick completes, it holds the
/// stretches of the history after.
pub proof fn lemma_expected_ticks<A: Aggregator>(
    history: Seq<A::PartialAggregate>,
    partial: A::PartialAggregate,
    start_ms: int,
    unit: int,
    actual: MaybeView<A::PartialAggregate>,
    rolled: A::PartialAggregate,
)
    requires
        unit >= 1,
        actual.conf.capacity >= 1,
        actual.conf.tick_size_ms == unit * 1000,
        actual.conf.watermark == start_ms,
        (history.len() as int + 1) % unit == 0,
        start_ms >= 0,
        start_ms + (history.len() + 1) * 1000 <= u64::MAX,
        same_shape(actual, expected::<A>(history, start_ms, actual.conf, unit)),
    ensures
        actual.allocated().watermark + actual.conf.tick_size_ms == start_ms + (history.len() + 1)
            * 1000,
        same_shape(
            MaybeView {
                conf: actual.conf,
                wheel: Some(ticked::<A>(actual.allocated().insert_slot(rolled))),
            },
            expected::<A>(history.push(partial), start_ms, actual.conf, unit),
        ),
        actual == expected::<A>(history, start_ms, actual.conf, unit) && rolled == chunk::<A>(
            history.push(partial),
            unit,
            history.len() as int / unit,
        ) ==> (MaybeView {
            conf: actual.conf,
            wheel: Some(ticked::<A>(actual.allocated().insert_slot(rolled))),
        }) == expected::<A>(history.push(partial), start_ms, actual.conf, unit),
{
    let conf = actual.conf;
    let ticks = history.len() as int;
    let after = history.push(partial);
    let count = ticks / unit;
    let limit = limit_of(conf);
    lemma_count_step(ticks, unit);
    lemma_rotation_step(count, conf.capacity as int);
    lemma_expected_well_formed::<A>(history, start_ms, conf, unit);
    assert((count + 1) * unit * 1000 == (ticks + 1) * 1000);
    assert(count * unit * 1000 + unit * 1000 == (count + 1) * unit * 1000) by (nonlinear_arith);
    assert(count * unit >= 0 && (count == 0 ==> count * unit == 0)) by (nonlinear_arith)
        requires
            count >= 0,
            unit >= 1,
    ;
    assert(actual.allocated().watermark == start_ms + count * unit * 1000);
    assert(actual.allocated().rotation_count == count % (conf.capacity as int));
    assert(actual.allocated().slots.len() == kept(count, limit));
    let before = actual.allocated().insert_slot(rolled);
    let now = ticked::<A>(before);
    let want = expected::<A>(after, start_ms, conf, unit);
    assert(want.wheel is Some);
    assert(now.slots.len() == kept(count + 1, limit));
    if actual == expected::<A>(history, start_ms, conf, unit) && rolled == chunk::<A>(
        after,
        unit,
        count,
    ) {
        let old_slots = expected_slots::<A>(history, unit, limit);
        let new_slots = expected_slots::<A>(after, unit, limit);
        assert(actual.allocated().slots =~= old_slots);
        let old_first = count - kept(count, limit);
        let new_first = count + 1 - kept(count + 1, limit);
        assert forall|i: int| 0 <= i < new_slots.len() implies #[trigger] now.slots[i]
            == new_slots[i] by {
            if i < new_slots.len() - 1 {
                lemma_mul_inequality(new_first + i + 1, count, unit);
                lemma_chunk_stable::<A>(history, partial, unit, new_first + i);
            }
        }
        assert(now.slots =~= new_slots);
    }
}

/// What a wheel rolls up at the end of a rotation is the next stretch of
/// the wheel above.
pub proof fn lemma_rollup_chunk<A: Aggregator>(
    history: Seq<A::PartialAggregate>,
    partial: A::PartialAggregate,
    start_ms: int,
    conf: WheelConf,
    unit: int,
    rolled: A::PartialAggregate,
)
    requires
        unit >= 1,
        conf.capacity >= 1,
        conf.tick_size_ms == unit * 1000,
        conf.watermark == start_ms,
        (history.len() as int + 1) % unit == 0,
        start_ms >= 0,
        start_ms + (history.len() + 1) * 1000 <= u64::MAX,
        rolled == chunk::<A>(history.push(partial), unit, history.len() as int / unit),
        expected::<A>(history, start_ms, conf, unit).allocated().insert_slot(rolled).rotates(),
    ensures
        (history.len() as int + 1) % (unit * conf.capacity) == 0,
        rollup::<A>(expected::<A>(history, start_ms, conf, unit).allocated().insert_slot(rolled))
            == Some(
            chunk::<A>(
                history.push(partial),
                unit * conf.capacity,
                history.len() as int / (unit * conf.capacity),
            ),
        ),
{
    let ticks = history.len() as int;
    let after = history.push(partial);
    let capacity = conf.capacity as int;
    let count = ticks / unit;
    let limit = limit_of(conf);
    let actual = expected::<A>(history, start_ms, conf, unit);
    let before = actual.allocated().insert_slot(rolled);
    lemma_expected_ticks::<A>(history, partial, start_ms, unit, actual, rolled);
    lemma_expected_well_formed::<A>(history, start_ms, conf, unit);
    lemma_count_step(ticks, unit);
    lemma_rotation_step(count, capacity);
    lemma_rollup_is_fold::<A>(before);
    let now = ticked::<A>(before);
    assert(now.slots == expected_slots::<A>(after, unit, limit));
    // the count of the wheel is a multiple of its capacity
    let rounds = (count + 1) / capacity;
    lemma_fundamental_div_mod(count + 1, capacity);
    assert(count + 1 == capacity * rounds);
    assert(rounds >= 1) by (nonlinear_arith)
        requires
            count + 1 == capacity * rounds,
            count + 1 >= 1,
            capacity >= 1,
    ;
    let big = unit * capacity;
    assert(big >= 1) by (nonlinear_arith)
        requires
            big == unit * capacity,
            unit >= 1,
            capacity >= 1,
    ;
    assert(ticks + 1 == rounds * big) by (nonlinear_arith)
        requires
            ticks + 1 == (count + 1) * unit,
            count + 1 == capacity * rounds,
            big == unit * capacity,
    ;
    lemma_fundamental_div_mod_converse(ticks + 1, big, rounds, 0);
    lemma_count_step(ticks, big);
    assert(ticks / big == rounds - 1);
    // the last `capacity` slots are the stretches of the last round
    let first = count + 1 - capacity;
    let last_round = now.slots.subrange(now.slots.len() - capacity, now.slots.len() as int);
    let chunks = Seq::new(capacity as nat, |i: int| chunk::<A>(after, unit, first + i));
    assert(last_round =~= chunks);
    assert((first + capacity) * unit == ticks + 1);
    lemma_fold_chunks::<A>(after, unit, first, capacity);
    assert(first * unit == (rounds - 1) * big && (first + capacity) * unit == (rounds - 1 + 1)
        * big) by (nonlinear_arith)
        requires
            first == count + 1 - capacity,
            count + 1 == capacity * rounds,
            big == unit * capacity,
    ;
}

} // verus!
