use crate::aggregator::Aggregator;
use crate::aggregator::combine_or_insert;
use crate::aggregator::combine_or_insert_spec;
use crate::aggregator::fold;
use crate::aggregator::fold_some;
use crate::aggregator::lemma_combine_or_insert_fold;
use crate::aggregator::lemma_fold_push;
use crate::aggregator::lemma_fold_split;
use crate::conf::DataLayout;
use crate::conf::RetentionPolicy;
use crate::conf::WheelConf;
use crate::datetime::DateTime;
use crate::granularity::Granularity;
use std::collections::VecDeque;
use vstd::prelude::*;

verus! {

/// What a wheel is, apart from how it is stored.
pub struct WheelView<P> {
    pub conf: WheelConf,
    /// Time up to which the wheel has been ticked, in milliseconds
    pub watermark: u64,
    /// The closed slots that are retained, oldest first
    pub slots: Seq<P>,
    /// The open slot, which the next tick closes
    pub head: Option<P>,
    /// Ticks since the last full rotation
    pub rotation_count: nat,
}

impl<P> WheelView<P> {
    pub open spec fn well_formed(self) -> bool {
        &&& self.conf.capacity >= 1
        &&& self.rotation_count < self.conf.capacity
        &&& self.rotation_count <= self.slots.len()
        &&& self.slots.len() <= self.limit()
    }

    /// Most slots that the wheel retains: its capacity where it drops what
    /// leaves the ring, else as many as can be counted.
    pub open spec fn limit(self) -> nat {
        match self.conf.retention {
            RetentionPolicy::Drop => self.conf.capacity as nat,
            RetentionPolicy::Keep => usize::MAX as nat,
        }
    }

    /// The closed slots of the rotation under way, oldest first.
    pub open spec fn live(self) -> Seq<P> {
        self.slots.subrange(self.slots.len() - self.rotation_count, self.slots.len() as int)
    }

    /// Closed slots that stand in the ring.
    pub open spec fn len(self) -> nat {
        if self.slots.len() <= self.conf.capacity {
            self.slots.len()
        } else {
            self.conf.capacity as nat
        }
    }

    /// The wheel with `partial` written to its open slot.
    pub open spec fn insert_slot(self, partial: P) -> Self {
        WheelView { head: Some(partial), ..self }
    }

    /// Whether the next tick evicts the oldest slot.
    pub open spec fn evicts(self) -> bool {
        self.slots.len() == self.limit()
    }

    /// Whether the next tick completes a rotation.
    pub open spec fn rotates(self) -> bool {
        self.rotation_count + 1 == self.conf.capacity
    }

    /// The retained slots after a tick that closes `value`.
    pub open spec fn pushed(self, value: P) -> Seq<P> {
        if self.evicts() {
            self.slots.drop_first().push(value)
        } else {
            self.slots.push(value)
        }
    }

    /// The same wheel under another layout.
    pub open spec fn with_layout(self, layout: DataLayout) -> Self {
        WheelView { conf: WheelConf { data_layout: layout, ..self.conf }, ..self }
    }

    /// Slots between the start of a range and the wheel's watermark, where
    /// the range starts on a slot boundary at or before the watermark.
    pub open spec fn distance(self, start_secs: int, granularity: Granularity) -> Option<int> {
        let gap = self.watermark / 1000 - start_secs;
        if self.conf.tick_size_ms == granularity.unit_secs() * 1000 && gap >= 0 && gap
            % granularity.unit_secs() == 0 {
            Some(gap / granularity.unit_secs())
        } else {
            None
        }
    }

    /// Whether the wheel holds the `n` slots from `start_secs` on.
    pub open spec fn covers(self, start_secs: int, n: int, granularity: Granularity) -> bool {
        &&& n >= 1
        &&& self.distance(start_secs, granularity) matches Some(d)
        &&& n <= d <= self.slots.len()
    }

    /// The `n` slots from `start_secs` on, oldest first.
    pub open spec fn window(self, start_secs: int, n: int, granularity: Granularity) -> Seq<P>
        recommends
            self.covers(start_secs, n, granularity),
    {
        let d = self.distance(start_secs, granularity).unwrap();
        self.slots.subrange(self.slots.len() - d, self.slots.len() - d + n)
    }
}

/// What the open slot closes as: its content, or the identity where nothing
/// was written to it.
pub open spec fn closing_value<A: Aggregator>(
    view: WheelView<A::PartialAggregate>,
) -> A::PartialAggregate {
    match view.head {
        Some(partial) => partial,
        None => A::identity_spec(),
    }
}

/// The combination of the closed slots of the rotation under way.
pub open spec fn closed_total<A: Aggregator>(view: WheelView<A::PartialAggregate>) -> Option<
    A::PartialAggregate,
> {
    fold_some::<A>(view.live())
}

/// The combination of all slots of the rotation under way, the open one
/// included; `None` where there is none.
pub open spec fn total_of<A: Aggregator>(view: WheelView<A::PartialAggregate>) -> Option<
    A::PartialAggregate,
> {
    match view.head {
        Some(partial) => combine_or_insert_spec::<A>(closed_total::<A>(view), partial),
        None => closed_total::<A>(view),
    }
}

/// The wheel with `partial` combined into its open slot.
pub open spec fn inserted_head<A: Aggregator>(
    view: WheelView<A::PartialAggregate>,
    partial: A::PartialAggregate,
) -> WheelView<A::PartialAggregate> {
    WheelView { head: combine_or_insert_spec::<A>(view.head, partial), ..view }
}

/// The wheel after a tick.
pub open spec fn ticked<A: Aggregator>(view: WheelView<A::PartialAggregate>) -> WheelView<
    A::PartialAggregate,
> {
    WheelView {
        conf: view.conf,
        watermark: (view.watermark + view.conf.tick_size_ms) as u64,
        slots: view.pushed(closing_value::<A>(view)),
        head: None,
        rotation_count: if view.rotates() {
            0
        } else {
            view.rotation_count + 1
        },
    }
}

/// What a tick hands upward: at the end of a rotation the combination of
/// the rotation's slots, else nothing.
pub open spec fn rollup<A: Aggregator>(view: WheelView<A::PartialAggregate>) -> Option<
    A::PartialAggregate,
> {
    if view.rotates() {
        combine_or_insert_spec::<A>(closed_total::<A>(view), closing_value::<A>(view))
    } else {
        None
    }
}

/// What a range query on the wheel answers: the combination of the `n` slots
/// from `start_secs` on where the wheel holds them, else nothing.
pub open spec fn aggregate_of<A: Aggregator>(
    view: WheelView<A::PartialAggregate>,
    start_secs: int,
    n: int,
    granularity: Granularity,
) -> Option<A::PartialAggregate> {
    if view.covers(start_secs, n, granularity) {
        Some(fold::<A>(view.window(start_secs, n, granularity)))
    } else {
        None
    }
}

/// The open slot of a wheel merged with that of another.
pub open spec fn merged_head<A: Aggregator>(
    head: Option<A::PartialAggregate>,
    other: Option<A::PartialAggregate>,
) -> Option<A::PartialAggregate> {
    match other {
        Some(partial) => combine_or_insert_spec::<A>(head, partial),
        None => head,
    }
}

/// A wheel merged with another: counted from the newest, each slot that
/// both hold is the combination of the two, this wheel's first; the slots
/// that only this wheel holds stay, and so do its watermark, its position
/// and its configuration.
pub open spec fn merged<A: Aggregator>(
    view: WheelView<A::PartialAggregate>,
    other: WheelView<A::PartialAggregate>,
) -> WheelView<A::PartialAggregate> {
    let shift = other.slots.len() - view.slots.len();
    WheelView {
        slots: Seq::new(
            view.slots.len(),
            |i: int|
                if 0 <= i + shift {
                    A::combine_spec(view.slots[i], other.slots[i + shift])
                } else {
                    view.slots[i]
                },
        ),
        head: merged_head::<A>(view.head, other.head),
        ..view
    }
}

/// The rollup of a rotation is the combination of the last `capacity`
/// slots that the wheel then holds.
pub proof fn lemma_rollup_is_fold<A: Aggregator>(view: WheelView<A::PartialAggregate>)
    requires
        view.well_formed(),
        view.rotates(),
    ensures
        ticked::<A>(view).slots.len() >= view.conf.capacity,
        rollup::<A>(view) == Some(
            fold::<A>(
                ticked::<A>(view).slots.subrange(
                    ticked::<A>(view).slots.len() - view.conf.capacity,
                    ticked::<A>(view).slots.len() as int,
                ),
            ),
        ),
{
    let value = closing_value::<A>(view);
    let after = ticked::<A>(view).slots;
    lemma_combine_or_insert_fold::<A>(view.live(), value);
    assert(after.subrange(after.len() - view.conf.capacity, after.len() as int)
        =~= view.live().push(value));
}

/// Slots that a wheel stores: its closed slots, and as many prefix sums
/// with the prefix layout.
pub open spec fn stored_slots<P>(view: WheelView<P>) -> int {
    match view.conf.data_layout {
        DataLayout::Array => view.slots.len() as int,
        DataLayout::Prefix => crate::plan::capped(2 * (view.slots.len() as int)),
    }
}

/// Bytes that a wheel takes up: its own size and that of the slots that it
/// stores, each capped at the largest `usize`.
pub open spec fn size_of_wheel<A: Aggregator>(view: WheelView<A::PartialAggregate>) -> int {
    crate::plan::capped(
        vstd::layout::size_of::<AggregationWheel<A>>() + crate::plan::capped(
            stored_slots(view) * vstd::layout::size_of::<A::PartialAggregate>(),
        ),
    )
}

/// One wheel of the hierarchy: a ring of closed slots, an open slot that
/// insertions write to and a tick closes, and the running combination of
/// the rotation under way.
pub struct AggregationWheel<A: Aggregator> {
    conf: WheelConf,
    watermark: u64,
    slots: VecDeque<A::PartialAggregate>,
    /// With the prefix layout, `prefix[i]` combines `slots[0..=i]`; else empty.
    prefix: Vec<A::PartialAggregate>,
    head: Option<A::PartialAggregate>,
    closed_total: Option<A::PartialAggregate>,
    rotation_count: usize,
}

impl<A: Aggregator> View for AggregationWheel<A> {
    type V = WheelView<A::PartialAggregate>;

    closed spec fn view(&self) -> WheelView<A::PartialAggregate> {
        WheelView {
            conf: self.conf,
            watermark: self.watermark,
            slots: self.slots@,
            head: self.head,
            rotation_count: self.rotation_count as nat,
        }
    }
}

impl<A: Aggregator> AggregationWheel<A> {
    /// Whether the stored prefix sums fit the slots and the layout.
    spec fn prefix_consistent(&self) -> bool {
        match self.conf.data_layout {
            DataLayout::Array => self.prefix@.len() == 0,
            DataLayout::Prefix => {
                &&& A::invertible_spec()
                &&& self.prefix@.len() == self.slots@.len()
                &&& forall|i: int|
                    0 <= i < self.prefix@.len() ==> #[trigger] self.prefix@[i] == fold::<A>(
                        self.slots@.subrange(0, i + 1),
                    )
            },
        }
    }

    /// The invariant of a wheel: its view is well formed, the running total
    /// combines the closed slots of the rotation under way, the prefix sums
    /// match the slots, and a prefix layout is only held by a group.
    pub closed spec fn wf(&self) -> bool {
        &&& self@.well_formed()
        &&& self.closed_total == closed_total::<A>(self@)
        &&& self.prefix_consistent()
    }

    pub proof fn lemma_wf(&self)
        requires
            self.wf(),
        ensures
            self@.well_formed(),
            self@.conf.data_layout == DataLayout::Prefix ==> A::invertible_spec(),
    {
    }

    /// Whether a wheel of this aggregator can be made from `conf`: it has a
    /// slot, and asks for prefix sums only of a group.
    pub open spec fn accepts(conf: WheelConf) -> bool {
        &&& conf.capacity >= 1
        &&& conf.data_layout == DataLayout::Prefix ==> A::invertible_spec()
    }

    /// Tells whether a wheel of this aggregator can be made from `conf`.
    pub fn check_conf(conf: &WheelConf) -> (ok: bool)
        ensures
            ok == Self::accepts(*conf),
    {
        conf.capacity >= 1 && (conf.data_layout != DataLayout::Prefix || A::invertible())
    }

    /// An empty wheel that starts at the watermark of `conf`.
    pub fn new(conf: WheelConf) -> (wheel: Self)
        requires
            Self::accepts(conf),
        ensures
            wheel.wf(),
            wheel@ == (WheelView::<A::PartialAggregate> {
                conf,
                watermark: conf.watermark,
                slots: Seq::empty(),
                head: None,
                rotation_count: 0,
            }),
    {
        let wheel = AggregationWheel {
            conf,
            watermark: conf.watermark,
            slots: VecDeque::new(),
            prefix: Vec::new(),
            head: None,
            closed_total: None,
            rotation_count: 0,
        };
        assert(wheel@.live() =~= Seq::empty());
        wheel
    }

    /// Combines `partial` into the open slot.
    pub fn insert_head(&mut self, partial: A::PartialAggregate)
        requires
            old(self).wf(),
        ensures
            final(self).wf(),
            final(self)@ == inserted_head::<A>(old(self)@, partial),
    {
        combine_or_insert::<A>(&mut self.head, partial);
    }

    /// Writes `partial` to the open slot, over what it held.
    pub fn insert_slot(&mut self, partial: A::PartialAggregate)
        requires
            old(self).wf(),
        ensures
            final(self).wf(),
            final(self)@ == old(self)@.insert_slot(partial),
    {
        self.head = Some(partial);
    }

    /// Recomputes the prefix sums from the slots.
    fn rebuild_prefix(&mut self)
        requires
            A::invertible_spec(),
        ensures
            final(self).conf == old(self).conf,
            final(self).watermark == old(self).watermark,
            final(self).slots == old(self).slots,
            final(self).head == old(self).head,
            final(self).closed_total == old(self).closed_total,
            final(self).rotation_count == old(self).rotation_count,
            final(self).prefix@.len() == final(self).slots@.len(),
            forall|i: int|
                0 <= i < final(self).prefix@.len() ==> #[trigger] final(self).prefix@[i]
                    == fold::<A>(final(self).slots@.subrange(0, i + 1)),
    {
        let mut prefix: Vec<A::PartialAggregate> = Vec::new();
        let mut running = A::identity();
        let n = self.slots.len();
        let mut i: usize = 0;
        assert(self.slots@.subrange(0, 0) =~= Seq::empty());
        while i < n
            invariant
                n == self.slots@.len(),
                0 <= i <= n,
                prefix@.len() == i,
                running == fold::<A>(self.slots@.subrange(0, i as int)),
                forall|j: int|
                    0 <= j < i ==> #[trigger] prefix@[j] == fold::<A>(
                        self.slots@.subrange(0, j + 1),
                    ),
            decreases n - i,
        {
            proof {
                assert(self.slots@.subrange(0, i + 1) =~= self.slots@.subrange(0, i as int).push(
                    self.slots@[i as int],
                ));
                lemma_fold_push::<A>(self.slots@.subrange(0, i as int), self.slots@[i as int]);
            }
            running = A::combine(running, self.slots[i]);
            prefix.push(running);
            i += 1;
        }
        self.prefix = prefix;
    }

    /// Closes the open slot and moves the wheel on by one slot. At the end
    /// of a rotation the combination of the rotation's slots is handed out.
    pub fn tick(&mut self) -> (rolled: Option<A::PartialAggregate>)
        requires
            old(self).wf(),
            old(self)@.watermark + old(self)@.conf.tick_size_ms <= u64::MAX,
        ensures
            final(self).wf(),
            final(self)@ == ticked::<A>(old(self)@),
            rolled == rollup::<A>(old(self)@),
    {
        let ghost before = self@;
        let value = match self.head {
            Some(partial) => partial,
            None => A::identity(),
        };
        self.head = None;
        combine_or_insert::<A>(&mut self.closed_total, value);
        let limit = match self.conf.retention {
            RetentionPolicy::Drop => self.conf.capacity,
            RetentionPolicy::Keep => usize::MAX,
        };
        let evict = self.slots.len() == limit;
        if evict {
            let _ = self.slots.pop_front();
        }
        self.slots.push_back(value);
        assert(self.slots@ =~= before.pushed(value));
        match self.conf.data_layout {
            DataLayout::Array => {},
            DataLayout::Prefix => {
                self.rebuild_prefix();
            },
        }
        self.watermark = self.watermark + self.conf.tick_size_ms;
        proof {
            lemma_combine_or_insert_fold::<A>(before.live(), value);
            assert(self.slots@.subrange(
                self.slots@.len() - (before.rotation_count + 1),
                self.slots@.len() as int,
            ) =~= before.live().push(value));
        }
        if self.rotation_count + 1 == self.conf.capacity {
            self.rotation_count = 0;
            let rolled = self.closed_total;
            self.closed_total = None;
            assert(self@.live() =~= Seq::empty());
            rolled
        } else {
            self.rotation_count = self.rotation_count + 1;
            None
        }
    }

    /// The combination of all slots of the rotation under way.
    pub fn total(&self) -> (total: Option<A::PartialAggregate>)
        requires
            self.wf(),
        ensures
            total == total_of::<A>(self@),
    {
        match self.head {
            Some(partial) => {
                let mut total = self.closed_total;
                combine_or_insert::<A>(&mut total, partial);
                total
            },
            None => self.closed_total,
        }
    }

    /// Combines the `n` slots from `start` on, at the given granularity.
    /// `None` where the wheel does not hold them all: where the range is
    /// empty, does not start on one of the wheel's slot boundaries, reaches
    /// past the watermark or back before the oldest retained slot, or where
    /// the granularity is not the wheel's.
    pub fn aggregate(&self, start: DateTime, n: usize, granularity: Granularity) -> (result:
        Option<A::PartialAggregate>)
        requires
            self.wf(),
        ensures
            result == aggregate_of::<A>(self@, start.secs(), n as int, granularity),
    {
        let unit: i64 = granularity.as_secs();
        let start_secs: i64 = start.unix_timestamp();
        let wheel_secs: u64 = self.watermark / 1000;
        if unit as u64 > u64::MAX / 1000 || self.conf.tick_size_ms != (unit as u64) * 1000 {
            return None;
        }
        if n == 0 {
            return None;
        }
        // distance from the start of the range to the watermark, in seconds
        let gap: u64 = if start_secs >= 0 {
            if start_secs as u64 > wheel_secs {
                return None;
            }
            wheel_secs - start_secs as u64
        } else {
            // the start lies before the epoch: the calendar bounds how far
            wheel_secs + ((-start_secs) as u64)
        };
        if gap % (unit as u64) != 0 {
            return None;
        }
        let distance: u64 = gap / (unit as u64);
        let len = self.slots.len();
        if (n as u64) > distance || distance > len as u64 {
            return None;
        }
        let from: usize = len - distance as usize;
        let to: usize = from + n;
        Some(self.combine_slots(from, to))
    }

    /// Combines the retained slots `from..to`, oldest first.
    fn combine_slots(&self, from: usize, to: usize) -> (result: A::PartialAggregate)
        requires
            self.wf(),
            from < to <= self.slots@.len(),
        ensures
            result == fold::<A>(self.slots@.subrange(from as int, to as int)),
    {
        match self.conf.data_layout {
            DataLayout::Prefix => self.prefix_range(from, to),
            DataLayout::Array => self.scan_slots(from, to),
        }
    }

    /// The combination of the slots `from..to`, from two prefix sums.
    fn prefix_range(&self, from: usize, to: usize) -> (result: A::PartialAggregate)
        requires
            A::invertible_spec(),
            from < to <= self.slots@.len(),
            self.prefix@.len() == self.slots@.len(),
            forall|i: int|
                0 <= i < self.prefix@.len() ==> #[trigger] self.prefix@[i] == fold::<A>(
                    self.slots@.subrange(0, i + 1),
                ),
        ensures
            result == fold::<A>(self.slots@.subrange(from as int, to as int)),
    {
        let upto = self.prefix[to - 1];
        if from == 0 {
            upto
        } else {
            let before = self.prefix[from - 1];
            proof {
                let slots = self.slots@;
                assert(upto == fold::<A>(slots.subrange(0, to as int)));
                assert(before == fold::<A>(slots.subrange(0, from as int)));
                lemma_fold_split::<A>(slots, 0, from as int, to as int);
                A::lemma_inverse(
                    fold::<A>(slots.subrange(0, from as int)),
                    fold::<A>(slots.subrange(from as int, to as int)),
                );
            }
            match A::combine_inverse(upto, before) {
                Some(result) => result,
                None => upto,
            }
        }
    }

    /// The combination of the slots `from..to`, slot by slot.
    fn scan_slots(&self, from: usize, to: usize) -> (result: A::PartialAggregate)
        requires
            from < to <= self.slots@.len(),
        ensures
            result == fold::<A>(self.slots@.subrange(from as int, to as int)),
    {
        let mut result = A::identity();
        let mut i: usize = from;
        assert(self.slots@.subrange(from as int, from as int) =~= Seq::empty());
        while i < to
            invariant
                from <= i <= to <= self.slots@.len(),
                result == fold::<A>(self.slots@.subrange(from as int, i as int)),
            decreases to - i,
        {
            proof {
                assert(self.slots@.subrange(from as int, i + 1) =~= self.slots@.subrange(
                    from as int,
                    i as int,
                ).push(self.slots@[i as int]));
                lemma_fold_push::<A>(
                    self.slots@.subrange(from as int, i as int),
                    self.slots@[i as int],
                );
            }
            result = A::combine(result, self.slots[i]);
            i += 1;
        }
        result
    }

    /// Switches to the prefix layout. The slots stay as they are.
    pub fn to_prefix_array(&mut self)
        requires
            old(self).wf(),
            A::invertible_spec(),
        ensures
            final(self).wf(),
            final(self)@ == old(self)@.with_layout(DataLayout::Prefix),
    {
        self.conf.data_layout = DataLayout::Prefix;
        self.rebuild_prefix();
        assert(self@.live() =~= old(self)@.live());
    }

    /// Switches to the array layout. The slots stay as they are.
    pub fn to_array(&mut self)
        requires
            old(self).wf(),
        ensures
            final(self).wf(),
            final(self)@ == old(self)@.with_layout(DataLayout::Array),
    {
        self.conf.data_layout = DataLayout::Array;
        self.prefix = Vec::new();
        assert(self@.live() =~= old(self)@.live());
    }

    /// Merges the slots of `other` into this wheel, slot by slot from the
    /// newest.
    pub fn merge(&mut self, other: &Self)
        requires
            old(self).wf(),
            other.wf(),
        ensures
            final(self).wf(),
            final(self)@ == merged::<A>(old(self)@, other@),
    {
        let len = self.slots.len();
        let other_len = other.slots.len();
        let mut slots: VecDeque<A::PartialAggregate> = VecDeque::new();
        let mut i: usize = 0;
        while i < len
            invariant
                0 <= i <= len,
                len == self.slots@.len(),
                other_len == other.slots@.len(),
                slots@.len() == i,
                forall|j: int|
                    0 <= j < i ==> #[trigger] slots@[j] == merged::<A>(old(self)@, other@).slots[j],
                self.slots@ == old(self)@.slots,
            decreases len - i,
        {
            let mine = self.slots[i];
            let value = if other_len >= len - i {
                A::combine(mine, other.slots[other_len - (len - i)])
            } else {
                mine
            };
            slots.push_back(value);
            i += 1;
        }
        assert(slots@ =~= merged::<A>(old(self)@, other@).slots);
        self.slots = slots;
        match other.head {
            Some(partial) => {
                combine_or_insert::<A>(&mut self.head, partial);
            },
            None => {},
        }
        self.closed_total = if self.rotation_count == 0 {
            assert(self@.live() =~= Seq::empty());
            None
        } else {
            Some(self.scan_slots(len - self.rotation_count, len))
        };
        match self.conf.data_layout {
            DataLayout::Array => {},
            DataLayout::Prefix => {
                self.rebuild_prefix();
            },
        }
    }

    /// Bytes that the wheel takes up: the wheel itself and the slots that
    /// it holds; the largest number where that cannot be told.
    pub fn size_bytes(&self) -> (bytes: usize)
        requires
            self.wf(),
        ensures
            bytes == size_of_wheel::<A>(self@),
    {
        let held: usize = match self.conf.data_layout {
            DataLayout::Array => self.slots.len(),
            DataLayout::Prefix => self.slots.len().saturating_add(self.prefix.len()),
        };
        let slot: usize = core::mem::size_of::<A::PartialAggregate>();
        assert(held == stored_slots(self@));
        let heap: usize = if slot != 0 && held > usize::MAX / slot {
            proof {
                let most = usize::MAX as int;
                vstd::arithmetic::div_mod::lemma_fundamental_div_mod(most, slot as int);
                assert(held * slot > most) by (nonlinear_arith)
                    requires
                        held >= most / (slot as int) + 1,
                        most == slot * (most / (slot as int)) + most % (slot as int),
                        0 <= most % (slot as int) < slot,
                        slot > 0,
                ;
            }
            usize::MAX
        } else {
            proof {
                let most = usize::MAX as int;
                if slot != 0 {
                    vstd::arithmetic::div_mod::lemma_fundamental_div_mod(most, slot as int);
                    assert(held * slot <= most) by (nonlinear_arith)
                        requires
                            0 <= held <= most / (slot as int),
                            most == slot * (most / (slot as int)) + most % (slot as int),
                            0 <= most % (slot as int) < slot,
                            slot > 0,
                    ;
                } else {
                    assert(held * slot == 0) by (nonlinear_arith)
                        requires
                            slot == 0,
                    ;
                }
            }
            held * slot
        };
        core::mem::size_of::<AggregationWheel<A>>().saturating_add(heap)
    }

    /// Empties the wheel and starts it again at `watermark`.
    pub fn clear(&mut self, watermark: u64)
        requires
            old(self).wf(),
        ensures
            final(self).wf(),
            final(self)@ == (WheelView::<A::PartialAggregate> {
                conf: old(self)@.conf,
                watermark,
                slots: Seq::empty(),
                head: None,
                rotation_count: 0,
            }),
    {
        self.slots = VecDeque::new();
        self.prefix = Vec::new();
        self.head = None;
        self.closed_total = None;
        self.rotation_count = 0;
        self.watermark = watermark;
        assert(self@.live() =~= Seq::empty());
    }

    /// Closed slots that stand in the ring.
    pub fn len(&self) -> (len: usize)
        ensures
            len == self@.len(),
    {
        let retained = self.slots.len();
        if retained <= self.conf.capacity {
            retained
        } else {
            self.conf.capacity
        }
    }

    /// Closed slots that are retained, in the ring or beyond it.
    pub fn retained(&self) -> (retained: usize)
        ensures
            retained == self@.slots.len(),
    {
        self.slots.len()
    }

    pub fn is_empty(&self) -> (empty: bool)
        ensures
            empty == (self@.slots.len() == 0),
    {
        self.slots.len() == 0
    }

    pub fn is_full(&self) -> (full: bool)
        ensures
            full == (self@.len() == self@.conf.capacity),
    {
        self.slots.len() >= self.conf.capacity
    }

    pub fn capacity(&self) -> (capacity: usize)
        ensures
            capacity == self@.conf.capacity,
    {
        self.conf.capacity
    }

    /// Ticks since the last full rotation.
    pub fn rotation_count(&self) -> (count: usize)
        ensures
            count == self@.rotation_count,
    {
        self.rotation_count
    }

    pub fn watermark(&self) -> (watermark: u64)
        ensures
            watermark == self@.watermark,
    {
        self.watermark
    }

    pub fn conf(&self) -> (conf: WheelConf)
        ensures
            conf == self@.conf,
    {
        self.conf
    }

    /// The retained slot `index`, counted from the oldest.
    pub fn slot(&self, index: usize) -> (slot: Option<A::PartialAggregate>)
        ensures
            slot == if index < self@.slots.len() {
                Some(self@.slots[index as int])
            } else {
                None
            },
    {
        if index < self.slots.len() {
            Some(self.slots[index])
        } else {
            None
        }
    }
}

} // verus!
