use crate::aggregator::Aggregator;
use crate::entry::Entry;
use crate::entry::Error;
use crate::write_ahead::WriteAheadView;
use crate::write_ahead::WriteAheadWheel;
use crate::write_ahead::written;
use vstd::arithmetic::power2::is_pow2;
use vstd::prelude::*;

verus! {

/// What the writing side is: its watermark and its write-ahead slots.
pub struct WriterView<M> {
    pub watermark: u64,
    pub slots: WriteAheadView<M>,
}

impl<M> WriterView<M> {
    /// Whole seconds from the watermark to `timestamp`.
    pub open spec fn seconds_ahead(self, timestamp: u64) -> int {
        (timestamp - self.watermark) / 1000
    }

    /// The first time that lies beyond the write-ahead slots.
    pub open spec fn max_write_ahead_ts(self) -> int {
        self.watermark + self.slots.write_ahead_len() * 1000
    }

    /// Whether an entry of this time is older than the watermark.
    pub open spec fn is_late(self, timestamp: u64) -> bool {
        timestamp < self.watermark
    }

    /// Whether an entry of this time lies beyond the write-ahead slots.
    pub open spec fn overflows(self, timestamp: u64) -> bool {
        timestamp >= self.watermark && !self.slots.can_write_ahead(self.seconds_ahead(timestamp))
    }
}

/// What an insertion answers: late for an entry older than the watermark,
/// overflow, with the first time out of reach, for one beyond the
/// write-ahead slots, else success.
pub open spec fn insert_result<T, M>(view: WriterView<M>, entry: Entry<T>) -> Result<
    (),
    Error<T>,
> {
    if view.is_late(entry.timestamp) {
        Err(Error::Late { entry, watermark: view.watermark })
    } else if view.overflows(entry.timestamp) {
        Err(Error::Overflow { entry, max_write_ahead_ts: view.max_write_ahead_ts() as u64 })
    } else {
        Ok(())
    }
}

/// The writing side after an insertion: as it was where the entry is
/// turned down; else the slot of the entry's second holds the entry's
/// data, lifted or folded into what the slot held.
pub open spec fn inserted<A: Aggregator>(
    view: WriterView<A::MutablePartialAggregate>,
    aggregator: &A,
    entry: Entry<A::Input>,
) -> WriterView<A::MutablePartialAggregate> {
    if view.is_late(entry.timestamp) || view.overflows(entry.timestamp) {
        view
    } else {
        let slot = view.slots.slot_ahead(view.seconds_ahead(entry.timestamp));
        WriterView {
            watermark: view.watermark,
            slots: WriteAheadView {
                slots: view.slots.slots.update(
                    slot,
                    written(aggregator, view.slots.slots[slot], entry.data),
                ),
                ..view.slots
            },
        }
    }
}

/// The writing side of a wheel: takes entries at or ahead of the watermark
/// into write-ahead slots, and hands one slot on with each tick.
pub struct WriterWheel<A: Aggregator> {
    watermark: u64,
    aggregator: A,
    wheel: WriteAheadWheel<A>,
}

impl<A: Aggregator> View for WriterWheel<A> {
    type V = WriterView<A::MutablePartialAggregate>;

    closed spec fn view(&self) -> WriterView<A::MutablePartialAggregate> {
        WriterView { watermark: self.watermark, slots: self.wheel@ }
    }
}

impl<A: Aggregator> WriterWheel<A> {
    pub closed spec fn wf(&self) -> bool {
        self.wheel.wf()
    }

    pub closed spec fn aggregator_spec(&self) -> &A {
        &self.aggregator
    }

    pub proof fn lemma_wf(&self)
        requires
            self.wf(),
        ensures
            self@.slots.well_formed(),
    {
        self.wheel.lemma_wf();
    }

    /// A writer at `watermark` with the default count of write-ahead slots.
    pub fn new(watermark: u64, aggregator: A) -> (writer: Self)
        ensures
            writer.wf(),
            writer@.watermark == watermark,
            writer@.slots.head == 0,
            writer@.slots.tail == 0,
            writer@.slots.slots == Seq::new(
                crate::write_ahead::DEFAULT_WRITE_AHEAD_SLOTS as nat,
                |i: int| None::<A::MutablePartialAggregate>,
            ),
            *writer.aggregator_spec() == aggregator,
    {
        WriterWheel { watermark, aggregator, wheel: WriteAheadWheel::default() }
    }

    /// A writer at `watermark` with `capacity` write-ahead slots.
    pub fn with_capacity(watermark: u64, capacity: usize, aggregator: A) -> (writer: Self)
        requires
            is_pow2(capacity as int),
        ensures
            writer.wf(),
            writer@.watermark == watermark,
            writer@.slots.head == 0,
            writer@.slots.tail == 0,
            writer@.slots.slots == Seq::new(
                capacity as nat,
                |i: int| None::<A::MutablePartialAggregate>,
            ),
            *writer.aggregator_spec() == aggregator,
    {
        WriterWheel { watermark, aggregator, wheel: WriteAheadWheel::with_capacity(capacity) }
    }

    pub fn watermark(&self) -> (watermark: u64)
        ensures
            watermark == self@.watermark,
    {
        self.watermark
    }

    /// Takes an entry into the slot of its second. An entry older than the
    /// watermark is handed back as late; one whose second lies beyond the
    /// write-ahead slots is handed back as overflow, with the first time
    /// that is out of reach.
    pub fn insert(&mut self, entry: Entry<A::Input>) -> (result: Result<(), Error<A::Input>>)
        requires
            old(self).wf(),
        ensures
            final(self).wf(),
            final(self).aggregator_spec() == old(self).aggregator_spec(),
            result == insert_result(old(self)@, entry),
            final(self)@ == inserted(old(self)@, old(self).aggregator_spec(), entry),
    {
        let watermark = self.watermark;
        if entry.timestamp < watermark {
            return Err(Error::Late { entry, watermark });
        }
        let seconds: u64 = (entry.timestamp - watermark) / 1000;
        if self.wheel.can_write_ahead(seconds) {
            let _ = self.wheel.write_ahead(seconds, entry.data, &self.aggregator);
            Ok(())
        } else {
            // the entry lies at or beyond this time, so the time can be told
            let ahead: u64 = self.wheel.write_ahead_len() as u64;
            let max_write_ahead_ts = watermark + ahead * 1000;
            Err(Error::Overflow { entry, max_write_ahead_ts })
        }
    }

    /// Moves the watermark on by one second and hands out the slot of the
    /// second that has passed.
    pub fn tick(&mut self) -> (slot: Option<A::MutablePartialAggregate>)
        requires
            old(self).wf(),
            old(self)@.watermark + 1000 <= u64::MAX,
        ensures
            final(self).wf(),
            final(self).aggregator_spec() == old(self).aggregator_spec(),
            final(self)@ == (WriterView {
                watermark: (old(self)@.watermark + 1000) as u64,
                slots: old(self)@.slots.ticked(),
            }),
            slot == old(self)@.slots.tick_result(),
    {
        self.watermark = self.watermark + 1000;
        self.wheel.tick()
    }
}

} // verus!
