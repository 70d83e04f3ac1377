use vstd::prelude::*;

verus! {

/// The four granularities that a range query can be answered at.
#[derive(Debug, Clone, Copy, PartialEq, Eq, Structural)]
pub enum Granularity {
    Second,
    Minute,
    Hour,
    Day,
}

impl Granularity {
    /// Seconds in one slot of this granularity.
    pub open spec fn unit_secs(self) -> int {
        match self {
            Granularity::Second => 1,
            Granularity::Minute => 60,
            Granularity::Hour => 3600,
            Granularity::Day => 86_400,
        }
    }

    /// Position in the order from fine to coarse.
    pub open spec fn rank(self) -> int {
        match self {
            Granularity::Second => 0,
            Granularity::Minute => 1,
            Granularity::Hour => 2,
            Granularity::Day => 3,
        }
    }

    pub fn as_secs(&self) -> (secs: i64)
        ensures
            secs == self.unit_secs(),
    {
        match self {
            Granularity::Second => 1,
            Granularity::Minute => 60,
            Granularity::Hour => 3600,
            Granularity::Day => 86_400,
        }
    }

    pub fn as_usize(&self) -> (rank: usize)
        ensures
            rank == self.rank(),
    {
        match self {
            Granularity::Second => 0,
            Granularity::Minute => 1,
            Granularity::Hour => 2,
            Granularity::Day => 3,
        }
    }

    /// The granularity at position `value`, counted from seconds.
    pub fn from_usize(value: usize) -> (granularity: Self)
        requires
            value < 4,
        ensures
            granularity.rank() == value,
    {
        if value == 0 {
            Granularity::Second
        } else if value == 1 {
            Granularity::Minute
        } else if value == 2 {
            Granularity::Hour
        } else {
            Granularity::Day
        }
    }
}

} // verus!
