//! A hierarchical aggregation wheel: a bounded-memory index over an
//! event-time stream that keeps pre-aggregated summaries at six time
//! granularities and answers range aggregation queries from the coarsest
//! wheels that fit.

pub mod aggregator;
pub mod conf;
pub mod datetime;
pub mod delta;
pub mod duration;
pub mod entry;
pub mod frequency;
pub mod granularity;
pub mod hierarchical;
pub mod laws;
pub mod maybe;
pub mod model;
pub mod plan;
pub mod query;
pub mod range;
pub mod reorder;
pub mod retained;
pub mod rw_wheel;
pub mod snapshot;
pub mod state;
pub mod wheel;
pub mod window;
pub mod write_ahead;
pub mod writer;

pub use aggregator::Aggregator;
pub use aggregator::U64MaxAggregator;
pub use aggregator::U64SumAggregator;
pub use entry::Entry;
pub use entry::Error;
pub use hierarchical::Haw;
pub use rw_wheel::RwWheel;
