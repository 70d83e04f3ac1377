use crate::aggregator::Aggregator;
use crate::conf::CYCLE_LENGTH_SECS;
use crate::conf::HawConf;
use crate::duration::Duration;
use crate::entry::Entry;
use crate::entry::Error;
use crate::hierarchical::Haw;
use crate::state::advanced;
use crate::state::cleared_view;
use crate::state::HawState;
use crate::writer::insert_result;
use crate::writer::inserted;
use crate::writer::WriterWheel;
use vstd::prelude::*;

verus! {

/// A writer and the hierarchy that it feeds, kept at one watermark:
/// entries go to the writer, an advance moves both, and queries read the
/// hierarchy.
pub struct RwWheel<A: Aggregator> {
    writer: WriterWheel<A>,
    reader: Haw<A>,
}

impl<A: Aggregator> RwWheel<A> {
    pub closed spec fn writer_spec(&self) -> WriterWheel<A> {
        self.writer
    }

    pub closed spec fn reader_spec(&self) -> Haw<A> {
        self.reader
    }

    /// The invariant: both sides are well formed and stand at one watermark.
    pub open spec fn wf(&self) -> bool {
        &&& self.writer_spec().wf()
        &&& self.reader_spec().wf()
        &&& self.writer_spec()@.watermark == self.reader_spec()@.watermark
    }

    /// A wheel that starts at `time`, in milliseconds, with the default
    /// configuration.
    pub fn new(time: u64, aggregator: A) -> (wheel: Self)
        ensures
            wheel.wf(),
            wheel.reader_spec().consistent(),
            wheel.reader_spec()@.watermark == time,
            wheel.reader_spec().history() == Seq::<A::PartialAggregate>::empty(),
            *wheel.writer_spec().aggregator_spec() == aggregator,
    {
        let conf = HawConf::default();
        RwWheel { writer: WriterWheel::new(time, aggregator), reader: Haw::new(time, conf) }
    }

    /// A wheel that starts at `time`, in milliseconds, with `conf`.
    pub fn with_conf(time: u64, conf: HawConf, aggregator: A) -> (wheel: Self)
        requires
            Haw::<A>::accepts(conf),
        ensures
            wheel.wf(),
            wheel.reader_spec().consistent(),
            wheel.reader_spec()@.watermark == time,
            wheel.reader_spec().history() == Seq::<A::PartialAggregate>::empty(),
            wheel.reader_spec().conf_spec() == conf,
            *wheel.writer_spec().aggregator_spec() == aggregator,
    {
        RwWheel { writer: WriterWheel::new(time, aggregator), reader: Haw::new(time, conf) }
    }

    /// The watermark in milliseconds.
    pub fn watermark(&self) -> (watermark: u64)
        ensures
            watermark == self.reader_spec()@.watermark,
    {
        self.reader.watermark()
    }

    /// The hierarchy, to query.
    pub fn read(&self) -> (reader: &Haw<A>)
        ensures
            *reader == self.reader_spec(),
    {
        &self.reader
    }

    /// Takes an entry into the write-ahead slot of its second. An entry
    /// older than the watermark is handed back as late; one beyond the
    /// write-ahead slots is handed back as overflow. The hierarchy sees an
    /// entry once the watermark has been advanced past its second.
    pub fn insert(&mut self, entry: Entry<A::Input>) -> (result: Result<(), Error<A::Input>>)
        requires
            old(self).wf(),
        ensures
            final(self).wf(),
            final(self).reader_spec() == old(self).reader_spec(),
            final(self).writer_spec().aggregator_spec() == old(
                self).writer_spec().aggregator_spec(),
            result == insert_result(old(self).writer_spec()@, entry),
            final(self).writer_spec()@ == inserted(
                old(self).writer_spec()@,
                old(self).writer_spec().aggregator_spec(),
                entry,
            ),
    {
        self.writer.insert(entry)
    }

    /// Moves the watermark on by the whole seconds of `duration`, feeding
    /// the hierarchy from the write-ahead slots, and hands back the windows
    /// that came due. A duration that is negative or longer than a full
    /// cycle clears the wheels instead.
    pub fn advance(&mut self, duration: Duration) -> (windows: Vec<(u64, A::PartialAggregate)>)
        requires
            old(self).wf(),
            0 <= duration.as_secs() <= CYCLE_LENGTH_SECS ==> old(self).reader_spec()@.watermark
                + duration.as_secs() * 1000 <= u64::MAX,
        ensures
            final(self).wf(),
            final(self).reader_spec()@.watermark >= old(self).reader_spec()@.watermark,
            0 <= duration.as_secs() <= CYCLE_LENGTH_SECS ==> {
                &&& final(self).reader_spec().state() == advanced::<A>(
                    old(self).reader_spec().state(),
                    old(self).writer_spec()@,
                    duration.as_secs() as nat,
                ).0
                &&& final(self).writer_spec()@ == advanced::<A>(
                    old(self).reader_spec().state(),
                    old(self).writer_spec()@,
                    duration.as_secs() as nat,
                ).1
                &&& windows@ == advanced::<A>(
                    old(self).reader_spec().state(),
                    old(self).writer_spec()@,
                    duration.as_secs() as nat,
                ).2
                &&& (old(self).reader_spec().consistent() ==> final(
                    self).reader_spec().consistent())
            },
            !(0 <= duration.as_secs() <= CYCLE_LENGTH_SECS) ==> {
                &&& final(self).reader_spec().state() == (HawState {
                    view: cleared_view(old(self).reader_spec()@),
                    history: Seq::empty(),
                    ..old(self).reader_spec().state()
                })
                &&& final(self).writer_spec()@ == old(self).writer_spec()@
                &&& windows@ == Seq::<(u64, A::PartialAggregate)>::empty()
            },
    {
        self.reader.advance(duration, &mut self.writer)
    }

    /// Moves the watermark on to `watermark`, by whole seconds; not at all
    /// where it lies at or before the watermark that is.
    pub fn advance_to(&mut self, watermark: u64) -> (windows: Vec<(u64, A::PartialAggregate)>)
        requires
            old(self).wf(),
        ensures
            final(self).wf(),
            final(self).reader_spec()@.watermark >= old(self).reader_spec()@.watermark,
            Haw::<A>::ticks_to(old(self).reader_spec()@.watermark, watermark)
                <= CYCLE_LENGTH_SECS ==> {
                &&& final(self).reader_spec().state() == advanced::<A>(
                    old(self).reader_spec().state(),
                    old(self).writer_spec()@,
                    Haw::<A>::ticks_to(old(self).reader_spec()@.watermark, watermark),
                ).0
                &&& final(self).writer_spec()@ == advanced::<A>(
                    old(self).reader_spec().state(),
                    old(self).writer_spec()@,
                    Haw::<A>::ticks_to(old(self).reader_spec()@.watermark, watermark),
                ).1
                &&& windows@ == advanced::<A>(
                    old(self).reader_spec().state(),
                    old(self).writer_spec()@,
                    Haw::<A>::ticks_to(old(self).reader_spec()@.watermark, watermark),
                ).2
                &&& (old(self).reader_spec().consistent() ==> final(
                    self).reader_spec().consistent())
            },
            Haw::<A>::ticks_to(old(self).reader_spec()@.watermark, watermark)
                > CYCLE_LENGTH_SECS ==> {
                &&& final(self).reader_spec().state() == (HawState {
                    view: cleared_view(old(self).reader_spec()@),
                    history: Seq::empty(),
                    ..old(self).reader_spec().state()
                })
                &&& final(self).writer_spec()@ == old(self).writer_spec()@
                &&& windows@ == Seq::<(u64, A::PartialAggregate)>::empty()
            },
    {
        self.reader.advance_to(watermark, &mut self.writer)
    }
}

} // verus!
