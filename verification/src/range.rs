use crate::datetime::DateTime;
use crate::datetime::day_of_month;
use crate::datetime::hour_of;
use crate::datetime::lemma_clock_fields;
use crate::datetime::minute_of;
use crate::datetime::second_of;
use crate::duration::div_toward_zero;
use crate::duration::Duration;
use crate::granularity::Granularity;
use vstd::prelude::*;

verus! {

/// The finest granularity at which either end of `[start, end)` has a
/// non-zero clock field; days where both ends are midnights.
pub open spec fn granularity_of(start_secs: int, end_secs: int) -> Granularity {
    if second_of(start_secs) != 0 || second_of(end_secs) != 0 {
        Granularity::Second
    } else if minute_of(start_secs) != 0 || minute_of(end_secs) != 0 {
        Granularity::Minute
    } else if hour_of(start_secs) != 0 || hour_of(end_secs) != 0 {
        Granularity::Hour
    } else {
        Granularity::Day
    }
}

/// Slots of its granularity that `[start, end)` spans, rounded toward zero.
pub open spec fn slots_between(start_secs: int, end_secs: int) -> int {
    div_toward_zero(end_secs - start_secs, granularity_of(start_secs, end_secs).unit_secs())
}

/// Both ends of a range lie on slot boundaries of its granularity.
pub proof fn lemma_granularity_aligned(start_secs: int, end_secs: int)
    ensures
        start_secs % granularity_of(start_secs, end_secs).unit_secs() == 0,
        end_secs % granularity_of(start_secs, end_secs).unit_secs() == 0,
{
    lemma_aligned_at(start_secs);
    lemma_aligned_at(end_secs);
}

/// A time whose clock fields are zero up to some unit is a multiple of it.
pub proof fn lemma_aligned_at(unix_secs: int)
    ensures
        second_of(unix_secs) == 0 ==> unix_secs % 60 == 0,
        second_of(unix_secs) == 0 && minute_of(unix_secs) == 0 ==> unix_secs % 3600 == 0,
        second_of(unix_secs) == 0 && minute_of(unix_secs) == 0 && hour_of(unix_secs) == 0
            ==> unix_secs % 86_400 == 0,
{
    lemma_clock_fields(unix_secs);
    let in_day = unix_secs % 86_400;
    if second_of(unix_secs) == 0 && minute_of(unix_secs) == 0 {
        assert(in_day % 3600 == 0);
        assert(unix_secs == 86_400 * (unix_secs / 86_400) + in_day);
        assert(unix_secs % 3600 == 0);
    }
}

/// Days to jump from a midnight on day `day` of its month: up to day 31,
/// and one day from the 31st itself.
pub open spec fn day_jump(day: int) -> int {
    if day < 31 {
        31 - day
    } else {
        1
    }
}

/// Seconds from `current_secs` to its next alignment point: the next full
/// minute where the second is not zero, else the next full hour, else the
/// next midnight, else `day_jump` days on.
pub open spec fn alignment_step(current_secs: int, day: int) -> int {
    if second_of(current_secs) > 0 {
        60 - second_of(current_secs)
    } else if minute_of(current_secs) > 0 {
        (60 - minute_of(current_secs)) * 60
    } else if hour_of(current_secs) > 0 {
        (24 - hour_of(current_secs)) * 3600
    } else {
        day_jump(day) * 86_400
    }
}

/// The whole days of a remaining span where it has any, else its whole
/// hours, else its whole minutes, else its seconds.
pub open spec fn largest_unit_step(remaining_secs: int) -> int {
    if remaining_secs / 86_400 > 0 {
        (remaining_secs / 86_400) * 86_400
    } else if remaining_secs / 3600 > 0 {
        (remaining_secs / 3600) * 3600
    } else if remaining_secs / 60 > 0 {
        (remaining_secs / 60) * 60
    } else {
        remaining_secs
    }
}

/// Where the sub-range that starts at `current_secs` ends: at the next
/// alignment point, or where that lies past `end_secs`, after the largest
/// whole unit that is left.
pub open spec fn next_end(current_secs: int, end_secs: int, day: int) -> int {
    let aligned = current_secs + alignment_step(current_secs, day);
    if aligned > end_secs {
        current_secs + largest_unit_step(end_secs - current_secs)
    } else {
        aligned
    }
}

/// Every sub-range is non-empty and ends at or before the end of the range.
pub proof fn lemma_next_end_bounds(current_secs: int, end_secs: int, day: int)
    requires
        current_secs < end_secs,
    ensures
        current_secs < next_end(current_secs, end_secs, day) <= end_secs,
{
}

/// The sub-ranges that `[start, end)` is split into, as pairs of start and
/// end seconds, in order of time.
pub open spec fn split_spec(start_secs: int, end_secs: int) -> Seq<(int, int)>
    decreases end_secs - start_secs,
{
    if start_secs >= end_secs {
        Seq::empty()
    } else {
        let stop = next_end(start_secs, end_secs, day_of_month(start_secs));
        if start_secs < stop <= end_secs {
            seq![(start_secs, stop)] + split_spec(stop, end_secs)
        } else {
            Seq::empty()
        }
    }
}

/// The range between two counts of seconds.
pub open spec fn range_at(ends: (int, int)) -> WheelRange {
    WheelRange { start: DateTime::at(ends.0), end: DateTime::at(ends.1) }
}

/// The sub-ranges that a range is split into, in order of time.
pub open spec fn split_ranges(range: WheelRange) -> Seq<WheelRange> {
    split_spec(range.start.secs(), range.end.secs()).map_values(|ends: (int, int)| range_at(ends))
}

/// The sub-ranges of a split are non-empty, follow one another without a
/// gap, start where the range starts and end where it ends.
pub proof fn lemma_split_partitions(start_secs: int, end_secs: int)
    requires
        start_secs < end_secs,
    ensures
        split_spec(start_secs, end_secs).len() >= 1,
        split_spec(start_secs, end_secs).first().0 == start_secs,
        split_spec(start_secs, end_secs).last().1 == end_secs,
        forall|i: int|
            0 <= i < split_spec(start_secs, end_secs).len() ==> start_secs <= (
            #[trigger] split_spec(start_secs, end_secs)[i]).0 < split_spec(
                start_secs,
                end_secs,
            )[i].1 <= end_secs,
        forall|i: int|
            0 <= i < split_spec(start_secs, end_secs).len() - 1 ==> (#[trigger] split_spec(
                start_secs,
                end_secs,
            )[i]).1 == split_spec(start_secs, end_secs)[i + 1].0,
    decreases end_secs - start_secs,
{
    let stop = next_end(start_secs, end_secs, day_of_month(start_secs));
    lemma_next_end_bounds(start_secs, end_secs, day_of_month(start_secs));
    let rest = split_spec(stop, end_secs);
    let all = split_spec(start_secs, end_secs);
    assert(all =~= seq![(start_secs, stop)] + rest);
    if stop < end_secs {
        lemma_split_partitions(stop, end_secs);
        assert forall|i: int| 0 <= i < all.len() implies start_secs <= (#[trigger] all[i]).0
            < all[i].1 <= end_secs by {
            if i > 0 {
                assert(all[i] == rest[i - 1]);
            }
        }
        assert forall|i: int| 0 <= i < all.len() - 1 implies (#[trigger] all[i]).1 == all[i
            + 1].0 by {
            assert(all[i + 1] == rest[i]);
            if i > 0 {
                assert(all[i] == rest[i - 1]);
            }
        }
        assert(all.last() == rest.last());
    } else {
        assert(rest =~= Seq::empty());
    }
}

/// A closed-open interval `[start, end)` of time.
#[derive(Debug, Clone, Copy, PartialEq, Eq, Hash)]
pub struct WheelRange {
    pub start: DateTime,
    pub end: DateTime,
}

impl WheelRange {
    pub fn new(start: DateTime, end: DateTime) -> (range: Self)
        ensures
            range.start == start,
            range.end == end,
    {
        WheelRange { start, end }
    }

    /// The granularity of the range.
    pub open spec fn granularity(self) -> Granularity {
        granularity_of(self.start.secs(), self.end.secs())
    }

    /// Slots of its granularity that the range spans.
    pub open spec fn slots(self) -> int {
        slots_between(self.start.secs(), self.end.secs())
    }

    /// The finest granularity at which either end of the range has a
    /// non-zero clock field; days where both ends are midnights.
    pub fn lowest_granularity(&self) -> (granularity: Granularity)
        ensures
            granularity == self.granularity(),
    {
        if self.start.second() != 0 || self.end.second() != 0 {
            Granularity::Second
        } else if self.start.minute() != 0 || self.end.minute() != 0 {
            Granularity::Minute
        } else if self.start.hour() != 0 || self.end.hour() != 0 {
            Granularity::Hour
        } else {
            Granularity::Day
        }
    }

    /// Slots that a scan of the range visits: its length in units of its
    /// granularity, rounded toward zero; negative where the range is reversed.
    pub fn scan_estimation(&self) -> (slots: i64)
        ensures
            slots == self.slots(),
    {
        let span = self.duration();
        match self.lowest_granularity() {
            Granularity::Second => span.whole_seconds(),
            Granularity::Minute => span.whole_minutes(),
            Granularity::Hour => span.whole_hours(),
            Granularity::Day => span.whole_days(),
        }
    }

    /// The length of the range.
    pub fn duration(&self) -> (span: Duration)
        ensures
            span.as_millis() == (self.end.secs() - self.start.secs()) * 1000,
            span.as_secs() == self.end.secs() - self.start.secs(),
    {
        self.end.since(&self.start)
    }
}

impl From<(DateTime, DateTime)> for WheelRange {
    fn from(ends: (DateTime, DateTime)) -> (range: Self) {
        WheelRange { start: ends.0, end: ends.1 }
    }
}

impl vstd::std_specs::convert::FromSpecImpl<(DateTime, DateTime)> for WheelRange {
    open spec fn obeys_from_spec() -> bool {
        true
    }

    open spec fn from_spec(ends: (DateTime, DateTime)) -> Self {
        WheelRange { start: ends.0, end: ends.1 }
    }
}

/// Where the sub-range that starts at `current` ends, given the day of the
/// month of `current`.
pub fn next_aligned_end(current: DateTime, end: DateTime, day: u8) -> (stop: DateTime)
    requires
        current.secs() < end.secs(),
        1 <= day <= 31,
    ensures
        stop.secs() == next_end(current.secs(), end.secs(), day as int),
        current.secs() < stop.secs() <= end.secs(),
{
    let from: i64 = current.unix_timestamp();
    let until: i64 = end.unix_timestamp();
    let second: i64 = current.second() as i64;
    let minute: i64 = current.minute() as i64;
    let hour: i64 = current.hour() as i64;
    let step: i64 = if second > 0 {
        60 - second
    } else if minute > 0 {
        (60 - minute) * 60
    } else if hour > 0 {
        (24 - hour) * 3600
    } else if day < 31 {
        (31 - day as i64) * 86_400
    } else {
        86_400
    };
    let aligned: i64 = from + step;
    let stop: i64 = if aligned > until {
        let remaining: i64 = until - from;
        let jump: i64 = if remaining / 86_400 > 0 {
            (remaining / 86_400) * 86_400
        } else if remaining / 3600 > 0 {
            (remaining / 3600) * 3600
        } else if remaining / 60 > 0 {
            (remaining / 60) * 60
        } else {
            remaining
        };
        from + jump
    } else {
        aligned
    };
    match DateTime::from_unix_timestamp(stop) {
        Some(date) => date,
        None => end,
    }
}

/// Where the sub-range that starts at `current` ends.
pub fn new_curr_end(current: DateTime, end: DateTime) -> (stop: DateTime)
    requires
        current.secs() < end.secs(),
    ensures
        stop.secs() == next_end(current.secs(), end.secs(), day_of_month(current.secs())),
        current.secs() < stop.secs() <= end.secs(),
{
    let day = current.day();
    next_aligned_end(current, end, day)
}

/// Splits a range into sub-ranges that each lie in one wheel: from the
/// start, each sub-range runs to the next alignment point (the next full
/// minute, hour or midnight, or some days on), or, where that lies past the
/// end, over the largest whole unit that is left. A range that is empty or
/// reversed has no sub-ranges.
pub fn split_wheel_ranges(range: WheelRange) -> (ranges: Vec<WheelRange>)
    ensures
        ranges@ == split_ranges(range),
        ranges@.len() == split_spec(range.start.secs(), range.end.secs()).len(),
        forall|i: int|
            0 <= i < ranges@.len() ==> (#[trigger] ranges@[i]).start.secs() == split_spec(
                range.start.secs(),
                range.end.secs(),
            )[i].0 && ranges@[i].end.secs() == split_spec(
                range.start.secs(),
                range.end.secs(),
            )[i].1,
{
    let mut ranges: Vec<WheelRange> = Vec::new();
    let end = range.end;
    let mut current = range.start;
    let ghost whole = split_spec(range.start.secs(), range.end.secs());
    assert(whole =~= Seq::<(int, int)>::empty() + split_spec(current.secs(), end.secs()));
    while current.unix_timestamp() < end.unix_timestamp()
        invariant
            end == range.end,
            whole == split_spec(range.start.secs(), range.end.secs()),
            ranges@.len() + split_spec(current.secs(), end.secs()).len() == whole.len(),
            forall|i: int|
                0 <= i < ranges@.len() ==> (#[trigger] ranges@[i]).start.secs() == whole[i].0
                    && ranges@[i].end.secs() == whole[i].1,
            forall|i: int|
                0 <= i < split_spec(current.secs(), end.secs()).len() ==> #[trigger] split_spec(
                    current.secs(),
                    end.secs(),
                )[i] == whole[ranges@.len() + i],
        decreases end.secs() - current.secs(),
    {
        let stop = new_curr_end(current, end);
        let ghost rest_before = split_spec(current.secs(), end.secs());
        let ghost rest_after = split_spec(stop.secs(), end.secs());
        assert(rest_before =~= seq![(current.secs(), stop.secs())] + rest_after);
        assert(rest_before[0] == whole[ranges@.len() as int]);
        assert forall|i: int| 0 <= i < rest_after.len() implies #[trigger] rest_after[i]
            == whole[ranges@.len() + 1 + i] by {
            assert(rest_after[i] == rest_before[i + 1]);
        }
        ranges.push(WheelRange { start: current, end: stop });
        current = stop;
    }
    proof {
        assert forall|i: int| 0 <= i < ranges@.len() implies #[trigger] ranges@[i]
            == split_ranges(range)[i] by {
            ranges@[i].start.lemma_at_secs();
            ranges@[i].end.lemma_at_secs();
        }
        assert(ranges@ =~= split_ranges(range));
    }
    ranges
}

} // verus!
