use vstd::prelude::*;

verus! {

/// An item of the stream: a payload and its event time in milliseconds since
/// the Unix epoch.
#[derive(Debug, Clone, Copy)]
pub struct Entry<T> {
    /// Payload, lifted by the aggregator on insertion
    pub data: T,
    /// Event time in milliseconds
    pub timestamp: u64,
}

impl<T> Entry<T> {
    pub fn new(data: T, timestamp: u64) -> (entry: Self)
        ensures
            entry.data == data,
            entry.timestamp == timestamp,
    {
        Entry { data, timestamp }
    }
}

/// Why an insertion was turned down. Both variants hand the entry back.
#[derive(Debug)]
pub enum Error<T> {
    /// The entry is older than the watermark.
    Late { entry: Entry<T>, watermark: u64 },
    /// The entry lies further ahead of the watermark than the write-ahead
    /// slots reach.
    Overflow { entry: Entry<T>, max_write_ahead_ts: u64 },
}

impl<T> Error<T> {
    pub fn is_late(&self) -> (late: bool)
        ensures
            late == (self is Late),
    {
        match self {
            Error::Late { .. } => true,
            Error::Overflow { .. } => false,
        }
    }

    pub fn is_overflow(&self) -> (overflow: bool)
        ensures
            overflow == (self is Overflow),
    {
        match self {
            Error::Late { .. } => false,
            Error::Overflow { .. } => true,
        }
    }
}

} // verus!
