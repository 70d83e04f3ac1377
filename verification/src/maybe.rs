use crate::aggregator::Aggregator;
use crate::conf::DataLayout;
use crate::conf::WheelConf;
use crate::datetime::DateTime;
use crate::granularity::Granularity;
use crate::wheel::aggregate_of;
use crate::wheel::AggregationWheel;
use crate::wheel::inserted_head;
use crate::wheel::merged;
use crate::wheel::rollup;
use crate::wheel::size_of_wheel;
use crate::wheel::ticked;
use crate::wheel::total_of;
use crate::wheel::WheelView;
use vstd::prelude::*;

verus! {

/// What a lazily allocated wheel is: its configuration and, once it has
/// been needed, the wheel.
pub struct MaybeView<P> {
    pub conf: WheelConf,
    pub wheel: Option<WheelView<P>>,
}

impl<P> MaybeView<P> {
    /// The wheel, as it is or as it would be allocated.
    pub open spec fn allocated(self) -> WheelView<P> {
        match self.wheel {
            Some(wheel) => wheel,
            None => WheelView {
                conf: self.conf,
                watermark: self.conf.watermark,
                slots: Seq::empty(),
                head: None,
                rotation_count: 0,
            },
        }
    }

    pub open spec fn rotation_count(self) -> nat {
        match self.wheel {
            Some(wheel) => wheel.rotation_count,
            None => 0,
        }
    }

    pub open spec fn len(self) -> nat {
        match self.wheel {
            Some(wheel) => wheel.len(),
            None => 0,
        }
    }

    pub open spec fn well_formed(self) -> bool {
        &&& self.conf.capacity >= 1
        &&& self.wheel matches Some(wheel) ==> wheel.well_formed() && wheel.conf == self.conf
    }
}

/// The total of a lazily allocated wheel: that of the wheel, or nothing.
pub open spec fn maybe_total<A: Aggregator>(view: MaybeView<A::PartialAggregate>) -> Option<
    A::PartialAggregate,
> {
    match view.wheel {
        Some(wheel) => total_of::<A>(wheel),
        None => None,
    }
}

/// The answer of a lazily allocated wheel to a range query: that of the
/// wheel, or nothing.
pub open spec fn maybe_aggregate<A: Aggregator>(
    view: MaybeView<A::PartialAggregate>,
    start_secs: int,
    n: int,
    granularity: Granularity,
) -> Option<A::PartialAggregate> {
    match view.wheel {
        Some(wheel) => aggregate_of::<A>(wheel, start_secs, n, granularity),
        None => None,
    }
}

/// A lazily allocated wheel merged with another: the merge of the two
/// wheels where both are allocated, else this wheel as it is.
pub open spec fn maybe_merged<A: Aggregator>(
    view: MaybeView<A::PartialAggregate>,
    other: MaybeView<A::PartialAggregate>,
) -> MaybeView<A::PartialAggregate> {
    match (view.wheel, other.wheel) {
        (Some(mine), Some(theirs)) => MaybeView {
            wheel: Some(merged::<A>(mine, theirs)),
            ..view
        },
        _ => view,
    }
}

/// Bytes that a lazily allocated wheel takes up: those of the wheel, or
/// none.
pub open spec fn maybe_size<A: Aggregator>(view: MaybeView<A::PartialAggregate>) -> int {
    match view.wheel {
        Some(wheel) => size_of_wheel::<A>(wheel),
        None => 0,
    }
}

/// A wheel that is allocated when it is first written to.
pub struct MaybeWheel<A: Aggregator> {
    conf: WheelConf,
    inner: Option<AggregationWheel<A>>,
}

impl<A: Aggregator> View for MaybeWheel<A> {
    type V = MaybeView<A::PartialAggregate>;

    closed spec fn view(&self) -> MaybeView<A::PartialAggregate> {
        MaybeView {
            conf: self.conf,
            wheel: match self.inner {
                Some(wheel) => Some(wheel@),
                None => None,
            },
        }
    }
}

impl<A: Aggregator> MaybeWheel<A> {
    pub closed spec fn wf(&self) -> bool {
        &&& AggregationWheel::<A>::accepts(self.conf)
        &&& self.inner matches Some(wheel) ==> wheel.wf() && wheel@.conf == self.conf
    }

    pub proof fn lemma_wf(&self)
        requires
            self.wf(),
        ensures
            self@.well_formed(),
            AggregationWheel::<A>::accepts(self@.conf),
    {
        match self.inner {
            Some(wheel) => {
                wheel.lemma_wf();
            },
            None => {},
        }
    }

    /// A wheel of the given configuration that is not allocated yet.
    pub fn new(conf: WheelConf) -> (wheel: Self)
        requires
            AggregationWheel::<A>::accepts(conf),
        ensures
            wheel.wf(),
            wheel@ == (MaybeView::<A::PartialAggregate> { conf, wheel: None }),
    {
        MaybeWheel { conf, inner: None }
    }

    /// Takes the wheel out, allocating it where there is none.
    fn take_or_allocate(&mut self) -> (wheel: AggregationWheel<A>)
        requires
            old(self).wf(),
        ensures
            wheel.wf(),
            wheel@ == old(self)@.allocated(),
            final(self).conf == old(self).conf,
            final(self).inner is None,
    {
        match self.inner.take() {
            Some(wheel) => wheel,
            None => AggregationWheel::new(self.conf),
        }
    }

    /// Combines `partial` into the open slot of the wheel.
    pub fn insert_head(&mut self, partial: A::PartialAggregate)
        requires
            old(self).wf(),
        ensures
            final(self).wf(),
            final(self)@ == (MaybeView {
                wheel: Some(inserted_head::<A>(old(self)@.allocated(), partial)),
                ..old(self)@
            }),
    {
        let mut wheel = self.take_or_allocate();
        wheel.insert_head(partial);
        self.inner = Some(wheel);
    }

    /// Writes `partial` to the open slot of the wheel.
    pub fn insert_slot(&mut self, partial: A::PartialAggregate)
        requires
            old(self).wf(),
        ensures
            final(self).wf(),
            final(self)@ == (MaybeView {
                wheel: Some(old(self)@.allocated().insert_slot(partial)),
                ..old(self)@
            }),
    {
        let mut wheel = self.take_or_allocate();
        wheel.insert_slot(partial);
        self.inner = Some(wheel);
    }

    /// Ticks the wheel and hands out what it rolls up.
    pub fn tick(&mut self) -> (rolled: Option<A::PartialAggregate>)
        requires
            old(self).wf(),
            old(self)@.allocated().watermark + old(self)@.conf.tick_size_ms <= u64::MAX,
        ensures
            final(self).wf(),
            final(self)@ == (MaybeView {
                wheel: Some(ticked::<A>(old(self)@.allocated())),
                ..old(self)@
            }),
            rolled == rollup::<A>(old(self)@.allocated()),
    {
        let mut wheel = self.take_or_allocate();
        let rolled = wheel.tick();
        self.inner = Some(wheel);
        rolled
    }

    /// The combination of the slots of the rotation under way.
    pub fn total(&self) -> (total: Option<A::PartialAggregate>)
        requires
            self.wf(),
        ensures
            total == maybe_total::<A>(self@),
    {
        match &self.inner {
            Some(wheel) => wheel.total(),
            None => None,
        }
    }

    /// Combines the `n` slots from `start` on; nothing where the wheel is
    /// not allocated or does not hold them.
    pub fn aggregate(&self, start: DateTime, n: usize, granularity: Granularity) -> (result:
        Option<A::PartialAggregate>)
        requires
            self.wf(),
        ensures
            result == maybe_aggregate::<A>(self@, start.secs(), n as int, granularity),
    {
        match &self.inner {
            Some(wheel) => wheel.aggregate(start, n, granularity),
            None => None,
        }
    }

    /// Whether the wheel is allocated and laid out with prefix sums.
    pub fn is_prefix(&self) -> (prefix: bool)
        ensures
            prefix == (self@.wheel is Some && self@.conf.data_layout == DataLayout::Prefix),
    {
        match &self.inner {
            Some(_) => self.conf.data_layout == DataLayout::Prefix,
            None => false,
        }
    }

    pub fn is_allocated(&self) -> (allocated: bool)
        ensures
            allocated == (self@.wheel is Some),
    {
        self.inner.is_some()
    }

    /// Drops the wheel and sets its start to `watermark`.
    pub fn clear(&mut self, watermark: u64)
        requires
            old(self).wf(),
        ensures
            final(self).wf(),
            final(self)@ == (MaybeView::<A::PartialAggregate> {
                conf: WheelConf { watermark, ..old(self)@.conf },
                wheel: None,
            }),
    {
        self.inner = None;
        self.conf.watermark = watermark;
    }

    /// Switches the allocated wheel to the prefix layout.
    pub fn to_prefix_array(&mut self)
        requires
            old(self).wf(),
            old(self)@.wheel is Some,
            A::invertible_spec(),
        ensures
            final(self).wf(),
            final(self)@ == (MaybeView {
                conf: WheelConf { data_layout: DataLayout::Prefix, ..old(self)@.conf },
                wheel: Some(old(self)@.wheel.unwrap().with_layout(DataLayout::Prefix)),
            }),
    {
        let mut wheel = self.take_or_allocate();
        wheel.to_prefix_array();
        self.conf.data_layout = DataLayout::Prefix;
        self.inner = Some(wheel);
    }

    /// Switches the allocated wheel to the array layout.
    pub fn to_array(&mut self)
        requires
            old(self).wf(),
            old(self)@.wheel is Some,
        ensures
            final(self).wf(),
            final(self)@ == (MaybeView {
                conf: WheelConf { data_layout: DataLayout::Array, ..old(self)@.conf },
                wheel: Some(old(self)@.wheel.unwrap().with_layout(DataLayout::Array)),
            }),
    {
        let mut wheel = self.take_or_allocate();
        wheel.to_array();
        self.conf.data_layout = DataLayout::Array;
        self.inner = Some(wheel);
    }

    /// Merges the slots of `other` into this wheel where both are allocated.
    pub fn merge(&mut self, other: &Self)
        requires
            old(self).wf(),
            other.wf(),
        ensures
            final(self).wf(),
            final(self)@ == maybe_merged::<A>(old(self)@, other@),
    {
        match &other.inner {
            Some(theirs) => {
                match self.inner.take() {
                    Some(mine) => {
                        let mut mine = mine;
                        mine.merge(theirs);
                        self.inner = Some(mine);
                    },
                    None => {},
                }
            },
            None => {},
        }
    }

    /// Bytes that the wheel takes up; none where it is not allocated.
    pub fn size_bytes(&self) -> (bytes: usize)
        requires
            self.wf(),
        ensures
            bytes == maybe_size::<A>(self@),
    {
        match &self.inner {
            Some(wheel) => wheel.size_bytes(),
            None => 0,
        }
    }

    /// Slots that stand in the ring; none where the wheel is not allocated.
    pub fn len(&self) -> (len: usize)
        ensures
            len == self@.len(),
    {
        match &self.inner {
            Some(wheel) => wheel.len(),
            None => 0,
        }
    }

    /// Ticks since the last full rotation.
    pub fn rotation_count(&self) -> (count: usize)
        ensures
            count == self@.rotation_count(),
    {
        match &self.inner {
            Some(wheel) => wheel.rotation_count(),
            None => 0,
        }
    }

    pub fn conf(&self) -> (conf: WheelConf)
        ensures
            conf == self@.conf,
    {
        self.conf
    }

    /// The wheel, where it is allocated.
    pub fn as_ref(&self) -> (wheel: Option<&AggregationWheel<A>>)
        requires
            self.wf(),
        ensures
            wheel is Some == self@.wheel is Some,
            wheel matches Some(w) ==> w.wf() && Some(w@) == self@.wheel,
    {
        self.inner.as_ref()
    }
}

} // verus!
