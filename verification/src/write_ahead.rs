use crate::aggregator::Aggregator;
use vstd::arithmetic::power2::is_pow2;
use vstd::prelude::*;

verus! {

/// Write-ahead slots of a wheel made by `default`
pub const DEFAULT_WRITE_AHEAD_SLOTS: usize = 64;

/// What a write-ahead wheel is: a ring of slots, one for each of the next
/// seconds, and the two positions that a tick moves.
pub struct WriteAheadView<M> {
    pub slots: Seq<Option<M>>,
    pub head: nat,
    pub tail: nat,
}

impl<M> WriteAheadView<M> {
    pub open spec fn capacity(self) -> nat {
        self.slots.len()
    }

    pub open spec fn well_formed(self) -> bool {
        &&& is_pow2(self.capacity() as int)
        &&& self.head < self.capacity()
        &&& self.tail < self.capacity()
    }

    /// Slots between the tail and the head.
    pub open spec fn len(self) -> nat {
        if self.head >= self.tail {
            (self.head - self.tail) as nat
        } else {
            (self.head + self.capacity() - self.tail) as nat
        }
    }

    pub open spec fn is_empty(self) -> bool {
        self.tail == self.head
    }

    /// Seconds ahead of the head that can be written to.
    pub open spec fn write_ahead_len(self) -> nat {
        (self.capacity() - self.len()) as nat
    }

    /// Whether the slot `addend` seconds ahead of the head can be written to.
    pub open spec fn can_write_ahead(self, addend: int) -> bool {
        0 <= addend < self.write_ahead_len()
    }

    /// The slot `addend` seconds ahead of the head.
    pub open spec fn slot_ahead(self, addend: int) -> int {
        (self.head + addend) % (self.capacity() as int)
    }

    /// The head moved on by one slot.
    pub open spec fn next_head(self) -> nat {
        (self.head + 1) % self.capacity()
    }

    /// Whether a tick finds the ring empty once it has moved the head.
    pub open spec fn drained(self) -> bool {
        self.next_head() == self.tail
    }

    /// The wheel after a tick: the head has moved; the slot at the tail is
    /// cleared and the tail has moved too, unless the tick found the ring
    /// empty.
    pub open spec fn ticked(self) -> Self {
        if self.drained() {
            WriteAheadView { head: self.next_head(), ..self }
        } else {
            WriteAheadView {
                slots: self.slots.update(self.tail as int, None),
                head: self.next_head(),
                tail: (self.tail + 1) % self.capacity(),
            }
        }
    }

    /// What a tick hands out: the slot at the tail, or nothing where the
    /// tick found the ring empty.
    pub open spec fn tick_result(self) -> Option<M> {
        if self.drained() {
            None
        } else {
            self.slots[self.tail as int]
        }
    }
}

/// A tick that finds the ring empty once it has moved the head hands out
/// nothing and leaves the tail and the slots as they are.
pub proof fn lemma_tick_on_empty<M>(view: WriteAheadView<M>)
    requires
        view.drained(),
    ensures
        view.tick_result() is None,
        view.ticked().tail == view.tail,
        view.ticked().slots == view.slots,
{
}

/// A tick on a ring whose slots are all empty hands out nothing.
pub proof fn lemma_tick_on_blank<M>(view: WriteAheadView<M>)
    requires
        view.well_formed(),
        forall|i: int| 0 <= i < view.slots.len() ==> view.slots[i] is None,
    ensures
        view.tick_result() is None,
        view.ticked().slots == view.slots,
{
    assert(view.slots.update(view.tail as int, None) =~= view.slots);
}

/// What a write leaves in a slot: the input lifted where the slot was
/// empty, else folded into what the slot held.
pub open spec fn written<A: Aggregator>(
    aggregator: &A,
    slot: Option<A::MutablePartialAggregate>,
    input: A::Input,
) -> Option<A::MutablePartialAggregate> {
    match slot {
        Some(acc) => Some(aggregator.combine_mutable_spec(acc, input)),
        None => Some(aggregator.lift_spec(input)),
    }
}

/// The position after `index` in a ring of `capacity` slots.
pub proof fn lemma_next_in_ring(index: nat, capacity: nat)
    requires
        index < capacity,
    ensures
        (index + 1) % capacity == if index + 1 == capacity {
            0
        } else {
            index + 1
        },
{
    if index + 1 == capacity {
        vstd::arithmetic::div_mod::lemma_mod_self_0(capacity as int);
    } else {
        vstd::arithmetic::div_mod::lemma_small_mod(index + 1, capacity);
    }
}

/// The wheel after a write `addend` seconds ahead of the head: the slot
/// holds the input, lifted or folded into what it held; or the wheel is as
/// it was, where the slot is out of reach.
pub open spec fn write_ahead_of<A: Aggregator>(
    view: WriteAheadView<A::MutablePartialAggregate>,
    addend: int,
    input: A::Input,
    aggregator: &A,
) -> WriteAheadView<A::MutablePartialAggregate> {
    if view.can_write_ahead(addend) {
        WriteAheadView {
            slots: view.slots.update(
                view.slot_ahead(addend),
                written(aggregator, view.slots[view.slot_ahead(addend)], input),
            ),
            ..view
        }
    } else {
        view
    }
}

/// Whether a count of slots is a power of two.
pub fn is_power_of_two(capacity: usize) -> (yes: bool)
    ensures
        yes == is_pow2(capacity as int),
{
    if capacity == 0 {
        reveal(is_pow2);
        return false;
    }
    let mut rest: usize = capacity;
    while rest % 2 == 0
        invariant
            rest >= 1,
            is_pow2(rest as int) == is_pow2(capacity as int),
        decreases rest,
    {
        proof {
            reveal(is_pow2);
        }
        rest = rest / 2;
    }
    proof {
        reveal(is_pow2);
    }
    rest == 1
}

/// A ring of accumulators, one for each of the next seconds, that takes
/// inserts ahead of the watermark until a tick hands them on.
pub struct WriteAheadWheel<A: Aggregator> {
    capacity: usize,
    slots: Vec<Option<A::MutablePartialAggregate>>,
    tail: usize,
    head: usize,
}

impl<A: Aggregator> View for WriteAheadWheel<A> {
    type V = WriteAheadView<A::MutablePartialAggregate>;

    closed spec fn view(&self) -> WriteAheadView<A::MutablePartialAggregate> {
        WriteAheadView { slots: self.slots@, head: self.head as nat, tail: self.tail as nat }
    }
}

impl<A: Aggregator> WriteAheadWheel<A> {
    pub closed spec fn wf(&self) -> bool {
        &&& self@.well_formed()
        &&& self.capacity == self.slots@.len()
    }

    pub proof fn lemma_wf(&self)
        requires
            self.wf(),
        ensures
            self@.well_formed(),
    {
    }

    /// A wheel of `capacity` empty slots.
    pub fn with_capacity(capacity: usize) -> (wheel: Self)
        requires
            is_pow2(capacity as int),
        ensures
            wheel.wf(),
            wheel@.slots == Seq::new(capacity as nat, |i: int| None::<A::MutablePartialAggregate>),
            wheel@.head == 0,
            wheel@.tail == 0,
    {
        let mut slots: Vec<Option<A::MutablePartialAggregate>> = Vec::new();
        let mut i: usize = 0;
        while i < capacity
            invariant
                0 <= i <= capacity,
                slots@ == Seq::new(i as nat, |j: int| None::<A::MutablePartialAggregate>),
            decreases capacity - i,
        {
            slots.push(None);
            i += 1;
            assert(slots@ =~= Seq::new(i as nat, |j: int| None::<A::MutablePartialAggregate>));
        }
        proof {
            reveal(is_pow2);
        }
        WriteAheadWheel { capacity, slots, tail: 0, head: 0 }
    }

    /// Moves the head on by one second. Where the ring is then not empty,
    /// hands out and clears the slot at the tail and moves the tail on too.
    pub fn tick(&mut self) -> (slot: Option<A::MutablePartialAggregate>)
        requires
            old(self).wf(),
        ensures
            final(self).wf(),
            final(self)@ == old(self)@.ticked(),
            slot == old(self)@.tick_result(),
            old(self)@.drained() ==> slot is None && final(self)@.tail == old(self)@.tail,
    {
        proof {
            lemma_next_in_ring(self.head as nat, self.capacity as nat);
            lemma_next_in_ring(self.tail as nat, self.capacity as nat);
        }
        self.head = if self.head + 1 == self.capacity {
            0
        } else {
            self.head + 1
        };
        if self.tail != self.head {
            let tail = self.tail;
            self.tail = if self.tail + 1 == self.capacity {
                0
            } else {
                self.tail + 1
            };
            self.slots[tail].take()
        } else {
            None
        }
    }

    /// Whether the tail has caught up with the head.
    pub fn is_empty(&self) -> (empty: bool)
        ensures
            empty == self@.is_empty(),
    {
        self.tail == self.head
    }

    /// Slots between the tail and the head.
    pub fn len(&self) -> (len: usize)
        requires
            self.wf(),
        ensures
            len == self@.len(),
    {
        if self.head >= self.tail {
            self.head - self.tail
        } else {
            self.head + (self.capacity - self.tail)
        }
    }

    pub fn capacity(&self) -> (capacity: usize)
        requires
            self.wf(),
        ensures
            capacity == self@.capacity(),
    {
        self.capacity
    }

    pub fn head(&self) -> (head: usize)
        ensures
            head == self@.head,
    {
        self.head
    }

    pub fn tail(&self) -> (tail: usize)
        ensures
            tail == self@.tail,
    {
        self.tail
    }

    /// Seconds ahead of the head that can be written to.
    pub fn write_ahead_len(&self) -> (len: usize)
        requires
            self.wf(),
        ensures
            len == self@.write_ahead_len(),
    {
        self.capacity - self.len()
    }

    /// Whether the slot `addend` seconds ahead of the head can be written to.
    pub fn can_write_ahead(&self, addend: u64) -> (can: bool)
        requires
            self.wf(),
        ensures
            can == self@.can_write_ahead(addend as int),
    {
        addend < self.write_ahead_len() as u64
    }

    /// Writes `data` to the slot `addend` seconds ahead of the head: lifted
    /// where the slot is empty, else folded into what the slot holds. Where
    /// the slot is out of reach the wheel stays as it is and `data` is
    /// handed back.
    pub fn write_ahead(&mut self, addend: u64, data: A::Input, aggregator: &A) -> (result:
        Result<(), A::Input>)
        requires
            old(self).wf(),
        ensures
            final(self).wf(),
            final(self)@ == write_ahead_of(old(self)@, addend as int, data, aggregator),
            result == if old(self)@.can_write_ahead(addend as int) {
                Ok::<(), A::Input>(())
            } else {
                Err::<(), A::Input>(data)
            },
    {
        if !self.can_write_ahead(addend) {
            return Err(data);
        }
        let ahead: usize = addend as usize;
        let room: usize = self.capacity - self.head;
        let index: usize = if ahead < room {
            self.head + ahead
        } else {
            ahead - room
        };
        assert(index == old(self)@.slot_ahead(addend as int)) by {
            let capacity = self.capacity as int;
            if ahead < room {
                vstd::arithmetic::div_mod::lemma_small_mod(
                    (self.head + ahead) as nat,
                    capacity as nat,
                );
            } else {
                vstd::arithmetic::div_mod::lemma_fundamental_div_mod_converse(
                    self.head + ahead,
                    capacity,
                    1,
                    (ahead - room) as int,
                );
            }
        }
        let next = match self.slots[index].take() {
            Some(acc) => {
                let mut acc = acc;
                aggregator.combine_mutable(&mut acc, data);
                acc
            },
            None => aggregator.lift(data),
        };
        self.slots[index] = Some(next);
        assert(self.slots@ =~= old(self)@.slots.update(
            index as int,
            written(aggregator, old(self)@.slots[index as int], data),
        ));
        Ok(())
    }
}

impl<A: Aggregator> Default for WriteAheadWheel<A> {
    fn default() -> (wheel: Self)
        ensures
            wheel.wf(),
            wheel@.slots == Seq::new(
                DEFAULT_WRITE_AHEAD_SLOTS as nat,
                |i: int| None::<A::MutablePartialAggregate>,
            ),
            wheel@.head == 0,
            wheel@.tail == 0,
    {
        proof {
            vstd::arithmetic::power2::lemma_pow2(6);
            vstd::arithmetic::power2::is_pow2_equiv(64);
            assert(vstd::arithmetic::power2::pow2(6) == 64) by {
                vstd::arithmetic::power2::lemma2_to64();
            }
        }
        Self::with_capacity(DEFAULT_WRITE_AHEAD_SLOTS)
    }
}

} // verus!
