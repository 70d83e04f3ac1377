use crate::aggregator::Aggregator;
use crate::aggregator::fold;
use crate::aggregator::lemma_fold_push;
use vstd::prelude::*;

verus! {

/// The lengths of the pairs that a sliding window is cut into, in
/// milliseconds.
#[derive(Debug, Clone, Copy, PartialEq, Eq, Structural)]
pub enum PairType {
    /// The range is a multiple of the slide: every pair is one slide long.
    Even(usize),
    /// Pairs alternate between the slide less the remainder of the range,
    /// and that remainder.
    Uneven(usize, usize),
}

/// The pairs of a window of `range` that moves by `slide`.
pub open spec fn pair_type_of(range: usize, slide: usize) -> PairType
    recommends
        slide > 0,
{
    if range % slide == 0 {
        PairType::Even(slide)
    } else {
        PairType::Uneven((slide - range % slide) as usize, range % slide)
    }
}

pub fn create_pair_type(range: usize, slide: usize) -> (pairs: PairType)
    requires
        slide > 0,
    ensures
        pairs == pair_type_of(range, slide),
{
    let rest: usize = range % slide;
    if rest == 0 {
        PairType::Even(slide)
    } else {
        PairType::Uneven(slide - rest, rest)
    }
}

/// Whether a window of `range` that moves by `slide`, both in
/// milliseconds, can be kept: the range is at least the slide, and every
/// pair lasts a second or more, so that each takes at least one tick.
pub open spec fn valid_window(range: usize, slide: usize) -> bool {
    &&& slide >= 1000
    &&& range >= slide
    &&& range % slide != 0 ==> range % slide >= 1000 && slide - range % slide >= 1000
}

/// Tells whether a window of `range` that moves by `slide` can be kept.
pub fn check_window(range: usize, slide: usize) -> (ok: bool)
    ensures
        ok == valid_window(range, slide),
{
    if slide < 1000 || range < slide {
        return false;
    }
    let rest: usize = range % slide;
    rest == 0 || (rest >= 1000 && slide - rest >= 1000)
}

/// `time + length`, or the largest time where that would lie past it.
pub open spec fn time_after(time: u64, length: usize) -> u64 {
    if time + length > u64::MAX {
        u64::MAX
    } else {
        (time + length) as u64
    }
}

fn add_time(time: u64, length: usize) -> (sum: u64)
    ensures
        sum == time_after(time, length),
{
    if length as u64 > u64::MAX - time {
        u64::MAX
    } else {
        time + length as u64
    }
}

/// Where a sliding window stands.
#[derive(Debug, Clone, Copy)]
pub struct WindowState {
    /// Length of the window in milliseconds
    pub range: usize,
    /// Distance between two windows in milliseconds
    pub slide: usize,
    /// Ticks until the pair under way is complete
    pub pair_ticks_remaining: usize,
    /// Length of the pair under way in milliseconds
    pub current_pair_len: usize,
    pub pair_type: PairType,
    /// Time at which the next window is due
    pub next_window_end: u64,
    /// Time at which the pair under way ends
    pub next_pair_end: u64,
    /// Whether the pair under way is the first of an uneven couple
    pub in_p1: bool,
}

impl WindowState {
    pub open spec fn well_formed(self) -> bool {
        &&& self.pair_ticks_remaining >= 1
        &&& self.current_pair_len >= 1000
        &&& self.slide >= 1000
        &&& match self.pair_type {
            PairType::Even(length) => length >= 1000,
            PairType::Uneven(first, second) => first >= 1000 && second >= 1000,
        }
    }

    /// The state of a window installed at `time`.
    pub open spec fn initial(time: u64, range: usize, slide: usize) -> WindowState {
        let pair_type = pair_type_of(range, slide);
        let current_pair_len = match pair_type {
            PairType::Even(length) => length,
            PairType::Uneven(_, second) => second,
        };
        WindowState {
            range,
            slide,
            pair_ticks_remaining: current_pair_len / 1000,
            current_pair_len,
            pair_type,
            next_window_end: time_after(time, range),
            next_pair_end: time_after(time, current_pair_len),
            in_p1: false,
        }
    }

    pub fn new(time: u64, range: usize, slide: usize) -> (state: Self)
        requires
            valid_window(range, slide),
        ensures
            state == Self::initial(time, range, slide),
            state.well_formed(),
    {
        let pair_type = create_pair_type(range, slide);
        let current_pair_len = match pair_type {
            PairType::Even(length) => length,
            PairType::Uneven(_, second) => second,
        };
        WindowState {
            range,
            slide,
            pair_ticks_remaining: current_pair_len / 1000,
            current_pair_len,
            pair_type,
            next_window_end: add_time(time, range),
            next_pair_end: add_time(time, current_pair_len),
            in_p1: false,
        }
    }

    /// The state with the length of the next pair: the other of an uneven
    /// couple, the same where pairs are even.
    pub open spec fn with_next_pair_len(self) -> WindowState {
        match self.pair_type {
            PairType::Even(_) => self,
            PairType::Uneven(first, second) => if self.in_p1 {
                WindowState { current_pair_len: second, in_p1: false, ..self }
            } else {
                WindowState { current_pair_len: first, in_p1: true, ..self }
            },
        }
    }

    pub fn update_pair_len(&mut self)
        ensures
            *final(self) == old(self).with_next_pair_len(),
    {
        match self.pair_type {
            PairType::Even(_) => {},
            PairType::Uneven(first, second) => {
                if self.in_p1 {
                    self.current_pair_len = second;
                    self.in_p1 = false;
                } else {
                    self.current_pair_len = first;
                    self.in_p1 = true;
                }
            },
        }
    }

    /// The state once the pair under way is complete at `watermark`: the
    /// next pair begins, and where a window is due, the next one is a slide
    /// later.
    pub open spec fn after_pair(self, watermark: u64) -> WindowState {
        let next = self.with_next_pair_len();
        WindowState {
            next_pair_end: time_after(watermark, next.current_pair_len),
            pair_ticks_remaining: next.current_pair_len / 1000,
            next_window_end: if watermark == self.next_window_end {
                time_after(self.next_window_end, self.slide)
            } else {
                self.next_window_end
            },
            ..next
        }
    }
}

/// What a window manager is: where the window stands, and the pairs that
/// it holds, oldest first.
pub struct WindowView<P> {
    pub state: WindowState,
    pub pairs: Seq<P>,
}

/// The pairs that are left once `pair` has come in at `watermark`: all of
/// them, less the oldest where a window was due.
pub open spec fn pairs_after<P>(view: WindowView<P>, watermark: u64, pair: P) -> Seq<P> {
    if watermark == view.state.next_window_end {
        view.pairs.push(pair).drop_first()
    } else {
        view.pairs.push(pair)
    }
}

/// The window that is due once `pair` has come in at `watermark`: the
/// combination of all pairs held, `pair` included.
pub open spec fn window_due<A: Aggregator>(
    view: WindowView<A::PartialAggregate>,
    watermark: u64,
    pair: A::PartialAggregate,
) -> Option<(u64, A::PartialAggregate)> {
    if watermark == view.state.next_window_end {
        Some((watermark, fold::<A>(view.pairs.push(pair))))
    } else {
        None
    }
}

/// Keeps a sliding window by pairs: every pair is combined once, when it is
/// complete; a window that is due is the combination of the pairs held, and
/// one pair, the oldest, leaves with each window.
pub struct WindowManager<A: Aggregator> {
    state: WindowState,
    pairs: Vec<A::PartialAggregate>,
}

impl<A: Aggregator> View for WindowManager<A> {
    type V = WindowView<A::PartialAggregate>;

    closed spec fn view(&self) -> WindowView<A::PartialAggregate> {
        WindowView { state: self.state, pairs: self.pairs@ }
    }
}

impl<A: Aggregator> WindowManager<A> {
    pub open spec fn wf(&self) -> bool {
        self@.state.well_formed()
    }

    /// A manager for a window of `range` that moves by `slide`, both in
    /// milliseconds, installed at `time`.
    pub fn new(time: u64, range: usize, slide: usize) -> (manager: Self)
        requires
            valid_window(range, slide),
        ensures
            manager.wf(),
            manager@ == (WindowView::<A::PartialAggregate> {
                state: WindowState::initial(time, range, slide),
                pairs: Seq::empty(),
            }),
    {
        WindowManager { state: WindowState::new(time, range, slide), pairs: Vec::new() }
    }

    pub fn state(&self) -> (state: WindowState)
        ensures
            state == self@.state,
    {
        self.state
    }

    /// Counts one tick. Tells the length of the pair under way where this
    /// tick completes it.
    pub fn on_tick(&mut self) -> (complete: Option<usize>)
        requires
            old(self).wf(),
        ensures
            final(self)@ == (WindowView {
                state: WindowState {
                    pair_ticks_remaining: (old(self)@.state.pair_ticks_remaining - 1) as usize,
                    ..old(self)@.state
                },
                ..old(self)@
            }),
            complete == if old(self)@.state.pair_ticks_remaining == 1 {
                Some(old(self)@.state.current_pair_len)
            } else {
                None
            },
            complete is None ==> final(self).wf(),
    {
        self.state.pair_ticks_remaining = self.state.pair_ticks_remaining - 1;
        if self.state.pair_ticks_remaining == 0 {
            Some(self.state.current_pair_len)
        } else {
            None
        }
    }

    /// The combination of the pairs held.
    pub fn query(&self) -> (window: A::PartialAggregate)
        ensures
            window == fold::<A>(self@.pairs),
    {
        let mut window = A::identity();
        let mut i: usize = 0;
        assert(self.pairs@.subrange(0, 0) =~= Seq::empty());
        while i < self.pairs.len()
            invariant
                0 <= i <= self.pairs@.len(),
                window == fold::<A>(self.pairs@.subrange(0, i as int)),
            decreases self.pairs@.len() - i,
        {
            proof {
                assert(self.pairs@.subrange(0, i + 1) =~= self.pairs@.subrange(0, i as int).push(
                    self.pairs@[i as int],
                ));
                lemma_fold_push::<A>(self.pairs@.subrange(0, i as int), self.pairs@[i as int]);
            }
            window = A::combine(window, self.pairs[i]);
            i += 1;
        }
        assert(self.pairs@.subrange(0, self.pairs@.len() as int) =~= self.pairs@);
        window
    }

    /// Takes in the pair that is complete at `watermark` and begins the
    /// next. Where a window is due at `watermark`, hands it out and drops
    /// the oldest pair.
    pub fn complete_pair(&mut self, watermark: u64, pair: A::PartialAggregate) -> (due: Option<
        (u64, A::PartialAggregate),
    >)
        requires
            old(self)@.state.current_pair_len >= 1000,
            old(self)@.state.slide >= 1000,
            match old(self)@.state.pair_type {
                PairType::Even(length) => length >= 1000,
                PairType::Uneven(first, second) => first >= 1000 && second >= 1000,
            },
        ensures
            final(self).wf(),
            final(self)@ == (WindowView {
                state: old(self)@.state.after_pair(watermark),
                pairs: pairs_after(old(self)@, watermark, pair),
            }),
            due == window_due::<A>(old(self)@, watermark, pair),
    {
        self.pairs.push(pair);
        let due_now = watermark == self.state.next_window_end;
        self.state.update_pair_len();
        self.state.next_pair_end = add_time(watermark, self.state.current_pair_len);
        self.state.pair_ticks_remaining = self.state.current_pair_len / 1000;
        if due_now {
            let window = self.query();
            let _ = self.pairs.remove(0);
            self.state.next_window_end = add_time(self.state.next_window_end, self.state.slide);
            assert(self.pairs@ =~= old(self)@.pairs.push(pair).drop_first());
            Some((watermark, window))
        } else {
            None
        }
    }
}

} // verus!
