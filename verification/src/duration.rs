use vstd::prelude::*;

verus! {

/// Division that rounds toward zero, as the whole-unit accessors do.
pub open spec fn div_toward_zero(x: int, d: int) -> int
    recommends
        d > 0,
{
    if x >= 0 {
        x / d
    } else {
        -((-x) / d)
    }
}

/// A signed span of time with millisecond resolution.
///
/// Held as whole seconds and a sub-second remainder of the same sign, so
/// every span from `i64::MIN` to `i64::MAX` seconds can be told.
#[derive(Debug, Clone, Copy, PartialEq, Eq, Hash)]
pub struct Duration {
    secs: i64,
    sub_millis: i16,
}

impl Duration {
    #[verifier::type_invariant]
    spec fn inv(self) -> bool {
        &&& -1000 < self.sub_millis < 1000
        &&& self.secs > 0 ==> self.sub_millis >= 0
        &&& self.secs < 0 ==> self.sub_millis <= 0
    }

    /// The span in milliseconds.
    pub closed spec fn as_millis(self) -> int {
        self.secs * 1000 + self.sub_millis
    }

    /// The span in whole seconds, rounded toward zero.
    pub open spec fn as_secs(self) -> int {
        div_toward_zero(self.as_millis(), 1000)
    }

    pub fn seconds(seconds: i64) -> (d: Self)
        ensures
            d.as_millis() == seconds * 1000,
    {
        Duration { secs: seconds, sub_millis: 0 }
    }

    pub fn milliseconds(milliseconds: i64) -> (d: Self)
        ensures
            d.as_millis() == milliseconds,
    {
        let secs: i64 = milliseconds / 1000;
        let rest: i64 = milliseconds % 1000;
        Duration { secs, sub_millis: rest as i16 }
    }

    pub fn minutes(minutes: i64) -> (d: Self)
        requires
            i64::MIN <= minutes * 60 <= i64::MAX,
        ensures
            d.as_millis() == minutes * 60_000,
    {
        Duration { secs: minutes * 60, sub_millis: 0 }
    }

    pub fn hours(hours: i64) -> (d: Self)
        requires
            i64::MIN <= hours * 3600 <= i64::MAX,
        ensures
            d.as_millis() == hours * 3_600_000,
    {
        Duration { secs: hours * 3600, sub_millis: 0 }
    }

    pub fn days(days: i64) -> (d: Self)
        requires
            i64::MIN <= days * 86_400 <= i64::MAX,
        ensures
            d.as_millis() == days * 86_400_000,
    {
        Duration { secs: days * 86_400, sub_millis: 0 }
    }

    pub fn weeks(weeks: i64) -> (d: Self)
        requires
            i64::MIN <= weeks * 604_800 <= i64::MAX,
        ensures
            d.as_millis() == weeks * 604_800_000,
    {
        Duration { secs: weeks * 604_800, sub_millis: 0 }
    }

    pub fn whole_milliseconds(&self) -> (ms: i128)
        ensures
            ms == self.as_millis(),
    {
        let secs: i128 = self.secs as i128;
        let rest: i128 = self.sub_millis as i128;
        secs * 1000 + rest
    }

    pub fn whole_seconds(&self) -> (s: i64)
        ensures
            s == self.as_secs(),
            s == div_toward_zero(self.as_millis(), 1000),
    {
        proof {
            use_type_invariant(self);
        }
        self.secs
    }

    pub fn whole_minutes(&self) -> (m: i64)
        ensures
            m == div_toward_zero(self.as_millis(), 60_000),
            m == div_toward_zero(self.as_secs(), 60),
    {
        proof {
            use_type_invariant(self);
        }
        self.secs / 60
    }

    pub fn whole_hours(&self) -> (h: i64)
        ensures
            h == div_toward_zero(self.as_millis(), 3_600_000),
            h == div_toward_zero(self.as_secs(), 3600),
    {
        proof {
            use_type_invariant(self);
        }
        self.secs / 3600
    }

    pub fn whole_days(&self) -> (d: i64)
        ensures
            d == div_toward_zero(self.as_millis(), 86_400_000),
            d == div_toward_zero(self.as_secs(), 86_400),
    {
        proof {
            use_type_invariant(self);
        }
        self.secs / 86_400
    }

    pub fn whole_weeks(&self) -> (w: i64)
        ensures
            w == div_toward_zero(self.as_millis(), 604_800_000),
            w == div_toward_zero(self.as_secs(), 604_800),
    {
        proof {
            use_type_invariant(self);
        }
        self.secs / 604_800
    }

    pub fn is_zero(&self) -> (zero: bool)
        ensures
            zero == (self.as_millis() == 0),
    {
        proof {
            use_type_invariant(self);
        }
        self.secs == 0 && self.sub_millis == 0
    }

    pub fn is_negative(&self) -> (negative: bool)
        ensures
            negative == (self.as_millis() < 0),
    {
        proof {
            use_type_invariant(self);
        }
        self.secs < 0 || self.sub_millis < 0
    }

    pub fn is_positive(&self) -> (positive: bool)
        ensures
            positive == (self.as_millis() > 0),
    {
        proof {
            use_type_invariant(self);
        }
        self.secs > 0 || self.sub_millis > 0
    }

    /// Whether this span is at least as long as `other`.
    pub fn ge(&self, other: &Duration) -> (at_least: bool)
        ensures
            at_least == (self.as_millis() >= other.as_millis()),
    {
        proof {
            use_type_invariant(self);
            use_type_invariant(other);
        }
        self.secs > other.secs || (self.secs == other.secs && self.sub_millis >= other.sub_millis)
    }
}

} // verus!
