use crate::duration::Duration;
use vstd::prelude::*;

verus! {

/// First second that a `DateTime` can hold: midnight of 1 January -9999.
pub const MIN_UNIX_SECS: i64 = -377_705_116_800;

/// Last second that a `DateTime` can hold: 23:59:59 of 31 December 9999.
pub const MAX_UNIX_SECS: i64 = 253_402_300_799;

/// Whether a count of seconds since the Unix epoch names a date in the
/// calendar's range.
pub open spec fn in_calendar(unix_secs: int) -> bool {
    MIN_UNIX_SECS <= unix_secs <= MAX_UNIX_SECS
}

/// Second of the minute of a Unix time, in UTC.
pub open spec fn second_of(unix_secs: int) -> int {
    unix_secs % 60
}

/// Minute of the hour of a Unix time, in UTC.
pub open spec fn minute_of(unix_secs: int) -> int {
    (unix_secs / 60) % 60
}

/// Hour of the day of a Unix time, in UTC.
pub open spec fn hour_of(unix_secs: int) -> int {
    (unix_secs / 3600) % 24
}

/// The clock fields of a Unix time are those of its second of the day.
pub proof fn lemma_clock_fields(unix_secs: int)
    ensures
        second_of(unix_secs) == (unix_secs % 86_400) % 60,
        minute_of(unix_secs) == ((unix_secs % 86_400) / 60) % 60,
        hour_of(unix_secs) == (unix_secs % 86_400) / 3600,
{
    let days = unix_secs / 86_400;
    let in_day = unix_secs % 86_400;
    assert(unix_secs == 86_400 * days + in_day);
    assert(unix_secs / 60 == 1440 * days + in_day / 60);
    assert(unix_secs / 3600 == 24 * days + in_day / 3600);
    assert((1440 * days + in_day / 60) % 60 == (in_day / 60) % 60);
    assert((24 * days + in_day / 3600) % 24 == (in_day / 3600) % 24);
}

/// Day of the month of a Unix time in UTC, by the proleptic Gregorian
/// calendar of the `time` crate. Left unfolded: the crate computes it.
pub uninterp spec fn day_of_month(unix_secs: int) -> int;

/// Calls `time::OffsetDateTime::from_unix_timestamp` and, on the date it
/// gives, `OffsetDateTime::day`.
///
/// Trusted: the first call succeeds exactly on the seconds between the
/// crate's first and last date, and the day it then reports is the calendar's
/// day of the month, which lies between 1 and 31.
#[verifier::external_body]
fn calendar_day(unix_secs: i64) -> (day: Option<u8>)
    ensures
        day.is_some() == in_calendar(unix_secs as int),
        day matches Some(d) ==> d == day_of_month(unix_secs as int) && 1 <= d <= 31,
{
    match time::OffsetDateTime::from_unix_timestamp(unix_secs) {
        Ok(date) => Some(date.day()),
        Err(_) => None,
    }
}

/// A point in time in UTC with second resolution, within the years -9999
/// to 9999.
#[derive(Debug, Clone, Copy, PartialEq, Eq, Hash)]
pub struct DateTime {
    secs: i64,
}

impl DateTime {
    #[verifier::type_invariant]
    spec fn inv(self) -> bool {
        in_calendar(self.secs as int)
    }

    /// Seconds since the Unix epoch.
    pub closed spec fn secs(self) -> int {
        self.secs as int
    }

    /// The date-time that lies `unix_secs` seconds from the Unix epoch.
    pub closed spec fn at(unix_secs: int) -> DateTime {
        DateTime { secs: unix_secs as i64 }
    }

    /// A date-time is told by its seconds.
    pub proof fn lemma_at_secs(self)
        ensures
            DateTime::at(self.secs()) == self,
    {
    }

    /// The date-time at a count of seconds has that count of seconds.
    pub proof fn lemma_secs_at(unix_secs: int)
        requires
            i64::MIN <= unix_secs <= i64::MAX,
        ensures
            DateTime::at(unix_secs).secs() == unix_secs,
    {
    }

    /// The seconds of a date-time fit into 64 bits.
    pub proof fn lemma_secs_bounded(self)
        ensures
            i64::MIN <= self.secs() <= i64::MAX,
    {
    }

    /// Midnight of 1 January 1970.
    pub fn unix_epoch() -> (date: Self)
        ensures
            date.secs() == 0,
    {
        DateTime { secs: 0 }
    }

    /// The date-time of a Unix timestamp; `None` outside the calendar's range.
    pub fn from_unix_timestamp(unix_secs: i64) -> (date: Option<Self>)
        ensures
            date.is_some() == in_calendar(unix_secs as int),
            date matches Some(d) ==> d.secs() == unix_secs && d == DateTime::at(unix_secs as int),
    {
        if MIN_UNIX_SECS <= unix_secs && unix_secs <= MAX_UNIX_SECS {
            Some(DateTime { secs: unix_secs })
        } else {
            None
        }
    }

    pub fn unix_timestamp(&self) -> (unix_secs: i64)
        ensures
            unix_secs == self.secs(),
            in_calendar(unix_secs as int),
    {
        proof {
            use_type_invariant(self);
        }
        self.secs
    }

    /// Seconds since the last midnight.
    fn second_of_day(&self) -> (s: i64)
        ensures
            s == self.secs() % 86_400,
            0 <= s < 86_400,
    {
        proof {
            use_type_invariant(self);
        }
        let rest: i64 = self.secs % 86_400;
        if rest < 0 {
            rest + 86_400
        } else {
            rest
        }
    }

    pub fn second(&self) -> (s: u8)
        ensures
            s == second_of(self.secs()),
            s < 60,
    {
        let in_day: i64 = self.second_of_day();
        proof {
            lemma_clock_fields(self.secs());
        }
        (in_day % 60) as u8
    }

    pub fn minute(&self) -> (m: u8)
        ensures
            m == minute_of(self.secs()),
            m < 60,
    {
        let in_day: i64 = self.second_of_day();
        proof {
            lemma_clock_fields(self.secs());
        }
        ((in_day / 60) % 60) as u8
    }

    pub fn hour(&self) -> (h: u8)
        ensures
            h == hour_of(self.secs()),
            h < 24,
    {
        let in_day: i64 = self.second_of_day();
        proof {
            lemma_clock_fields(self.secs());
        }
        (in_day / 3600) as u8
    }

    /// Day of the month, from 1.
    pub fn day(&self) -> (d: u8)
        ensures
            d == day_of_month(self.secs()),
            1 <= d <= 31,
    {
        proof {
            use_type_invariant(self);
        }
        match calendar_day(self.secs) {
            Some(d) => d,
            None => 1,
        }
    }

    /// This point moved by `seconds`; `None` where that leaves the calendar.
    pub fn checked_add_seconds(&self, seconds: i64) -> (moved: Option<Self>)
        ensures
            moved.is_some() == in_calendar(self.secs() + seconds),
            moved matches Some(d) ==> d.secs() == self.secs() + seconds && d == DateTime::at(
                self.secs() + seconds,
            ),
    {
        proof {
            use_type_invariant(self);
        }
        match self.secs.checked_add(seconds) {
            Some(sum) => Self::from_unix_timestamp(sum),
            None => None,
        }
    }

    /// The span from `earlier` to this point; negative where `earlier` is
    /// the later of the two.
    pub fn since(&self, earlier: &DateTime) -> (span: Duration)
        ensures
            span.as_millis() == (self.secs() - earlier.secs()) * 1000,
    {
        proof {
            use_type_invariant(self);
            use_type_invariant(earlier);
        }
        Duration::seconds(self.secs - earlier.secs)
    }
}

} // verus!
