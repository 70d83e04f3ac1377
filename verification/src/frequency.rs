use crate::granularity::Granularity;
use vstd::prelude::*;

verus! {

/// A running sum and count of the slots that queries have visited.
#[derive(Debug, Clone, Copy, PartialEq, Eq, Structural)]
pub struct Frequency {
    pub sum: u64,
    pub count: u64,
}

impl Frequency {
    pub fn new() -> (frequency: Self)
        ensures
            frequency.sum == 0,
            frequency.count == 0,
    {
        Frequency { sum: 0, count: 0 }
    }

    pub fn sum(&self) -> (sum: u64)
        ensures
            sum == self.sum,
    {
        self.sum
    }

    pub fn count(&self) -> (count: u64)
        ensures
            count == self.count,
    {
        self.count
    }

    /// The statistics with one more query that visited `value` slots. Sum
    /// and count stop at the largest number that they can hold.
    pub open spec fn with(self, value: int) -> Frequency {
        Frequency {
            sum: if self.sum + value > u64::MAX {
                u64::MAX
            } else {
                (self.sum + value) as u64
            },
            count: if self.count == u64::MAX {
                u64::MAX
            } else {
                (self.count + 1) as u64
            },
        }
    }

    /// Slots visited by a query on average.
    pub fn avg(&self) -> (avg: u64)
        requires
            self.count > 0,
        ensures
            avg == self.sum / self.count,
    {
        self.sum / self.count
    }

    /// Records a query that visited `value` slots.
    pub fn record(&mut self, value: u64)
        ensures
            *final(self) == old(self).with(value as int),
    {
        self.sum = self.sum.saturating_add(value);
        self.count = self.count.saturating_add(1);
    }
}

/// Access statistics of the four wheels that queries read, from seconds
/// to days.
#[derive(Debug, Clone, Copy)]
pub struct WheelFrequencies {
    pub seconds: Frequency,
    pub minutes: Frequency,
    pub hours: Frequency,
    pub days: Frequency,
}

impl WheelFrequencies {
    pub fn new() -> (frequencies: Self)
        ensures
            frequencies.seconds == (Frequency { sum: 0, count: 0 }),
            frequencies.minutes == (Frequency { sum: 0, count: 0 }),
            frequencies.hours == (Frequency { sum: 0, count: 0 }),
            frequencies.days == (Frequency { sum: 0, count: 0 }),
    {
        WheelFrequencies {
            seconds: Frequency::new(),
            minutes: Frequency::new(),
            hours: Frequency::new(),
            days: Frequency::new(),
        }
    }

    /// The statistics of one wheel.
    pub open spec fn of(self, granularity: Granularity) -> Frequency {
        match granularity {
            Granularity::Second => self.seconds,
            Granularity::Minute => self.minutes,
            Granularity::Hour => self.hours,
            Granularity::Day => self.days,
        }
    }

    pub fn get(&self, granularity: Granularity) -> (frequency: Frequency)
        ensures
            frequency == self.of(granularity),
    {
        match granularity {
            Granularity::Second => self.seconds,
            Granularity::Minute => self.minutes,
            Granularity::Hour => self.hours,
            Granularity::Day => self.days,
        }
    }

    /// The statistics with one more query that visited `value` slots of
    /// one wheel.
    pub open spec fn added(self, granularity: Granularity, value: int) -> WheelFrequencies {
        match granularity {
            Granularity::Second => WheelFrequencies {
                seconds: self.seconds.with(value),
                ..self
            },
            Granularity::Minute => WheelFrequencies {
                minutes: self.minutes.with(value),
                ..self
            },
            Granularity::Hour => WheelFrequencies { hours: self.hours.with(value), ..self },
            Granularity::Day => WheelFrequencies { days: self.days.with(value), ..self },
        }
    }

    /// Records a query that visited `value` slots of one wheel.
    pub fn add(&mut self, granularity: Granularity, value: usize)
        ensures
            *final(self) == old(self).added(granularity, value as int),
    {
        match granularity {
            Granularity::Second => self.seconds.record(value as u64),
            Granularity::Minute => self.minutes.record(value as u64),
            Granularity::Hour => self.hours.record(value as u64),
            Granularity::Day => self.days.record(value as u64),
        }
    }
}

} // verus!
