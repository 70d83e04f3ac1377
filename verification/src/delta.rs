use vstd::prelude::*;

verus! {

/// The log of what each tick inserted, from the time `oldest_ts` on.
#[derive(Debug)]
pub struct DeltaState<T> {
    /// Time of the first delta, in milliseconds
    pub oldest_ts: u64,
    /// One entry for each tick, oldest first
    pub deltas: Vec<Option<T>>,
}

impl<T: Copy> DeltaState<T> {
    pub fn new(oldest_ts: u64, deltas: Vec<Option<T>>) -> (state: Self)
        ensures
            state.oldest_ts == oldest_ts,
            state.deltas == deltas,
    {
        DeltaState { oldest_ts, deltas }
    }

    /// Appends the delta of one more tick.
    pub fn push(&mut self, delta: Option<T>)
        ensures
            final(self).oldest_ts == old(self).oldest_ts,
            final(self).deltas@ == old(self).deltas@.push(delta),
    {
        self.deltas.push(delta);
    }

    /// A copy of the log.
    pub fn snapshot(&self) -> (copy: Self)
        ensures
            copy.oldest_ts == self.oldest_ts,
            copy.deltas@ == self.deltas@,
    {
        let mut deltas: Vec<Option<T>> = Vec::new();
        let mut i: usize = 0;
        while i < self.deltas.len()
            invariant
                0 <= i <= self.deltas@.len(),
                deltas@ == self.deltas@.subrange(0, i as int),
            decreases self.deltas@.len() - i,
        {
            deltas.push(self.deltas[i]);
            i += 1;
            assert(deltas@ =~= self.deltas@.subrange(0, i as int));
        }
        assert(self.deltas@.subrange(0, self.deltas@.len() as int) =~= self.deltas@);
        DeltaState { oldest_ts: self.oldest_ts, deltas }
    }
}

} // verus!
