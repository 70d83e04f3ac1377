use vstd::prelude::*;

verus! {

/// Slots of the seconds wheel
pub const SECONDS: usize = 60;

/// Slots of the minutes wheel
pub const MINUTES: usize = 60;

/// Slots of the hours wheel
pub const HOURS: usize = 24;

/// Slots of the days wheel
pub const DAYS: usize = 7;

/// Slots of the weeks wheel
pub const WEEKS: usize = 52;

/// Slots of the years wheel
pub const YEARS: usize = 10;

/// Slots of all six wheels together
pub const TOTAL_WHEEL_SLOTS: usize = 213;

/// Length of a seconds slot in milliseconds
pub const SECOND_TICK_MS: u64 = 1_000;

/// Length of a minutes slot in milliseconds
pub const MINUTE_TICK_MS: u64 = 60_000;

/// Length of an hours slot in milliseconds
pub const HOUR_TICK_MS: u64 = 3_600_000;

/// Length of a days slot in milliseconds
pub const DAY_TICK_MS: u64 = 86_400_000;

/// Length of a weeks slot in milliseconds
pub const WEEK_TICK_MS: u64 = 604_800_000;

/// Length of a years slot (52 weeks) in milliseconds
pub const YEAR_TICK_MS: u64 = 31_449_600_000;

pub const MINUTE_AS_SECS: u64 = 60;

pub const HOUR_AS_SECS: u64 = 3_600;

pub const DAY_AS_SECS: u64 = 86_400;

pub const WEEK_AS_SECS: u64 = 604_800;

pub const YEAR_AS_SECS: u64 = 31_449_600;

/// Seconds that all six wheels together span: ten years of 52 weeks
pub const TOTAL_SECS_IN_WHEEL: u64 = 314_496_000;

/// Longest advance, in seconds, that is still ticked second by second: the
/// ten years that the wheels span and one second more, so that a full
/// cycle is rotated through.
pub const CYCLE_LENGTH_SECS: u64 = 314_496_001;

/// Scan cost above which a plan is worth splitting when hints are in use
pub const DEFAULT_SIMD_THRESHOLD: usize = 15_000;

/// How a wheel lays out its slots.
#[derive(Debug, Clone, Copy, PartialEq, Eq, Structural)]
pub enum DataLayout {
    /// The slots only: a range costs one combine per slot.
    Array,
    /// The slots and their running combination: a range costs one inverse
    /// combine, an insertion a rebuild.
    Prefix,
}

/// What a wheel does with a slot that leaves its ring.
#[derive(Debug, Clone, Copy, PartialEq, Eq, Structural)]
pub enum RetentionPolicy {
    /// The oldest slot is evicted.
    Drop,
    /// Every slot is kept.
    Keep,
}

/// Configuration of one wheel.
#[derive(Debug, Clone, Copy)]
pub struct WheelConf {
    /// Slots of the ring
    pub capacity: usize,
    /// Time at which the wheel starts, in milliseconds
    pub watermark: u64,
    /// Length of one slot in milliseconds
    pub tick_size_ms: u64,
    pub data_layout: DataLayout,
    pub retention: RetentionPolicy,
}

impl WheelConf {
    /// A wheel of `capacity` slots of `tick_size_ms` each, starting at time
    /// zero, with array layout and dropping retention.
    pub fn new(tick_size_ms: u64, capacity: usize) -> (conf: Self)
        ensures
            conf == (WheelConf {
                capacity,
                watermark: 0,
                tick_size_ms,
                data_layout: DataLayout::Array,
                retention: RetentionPolicy::Drop,
            }),
    {
        WheelConf {
            capacity,
            watermark: 0,
            tick_size_ms,
            data_layout: DataLayout::Array,
            retention: RetentionPolicy::Drop,
        }
    }

    pub fn set_watermark(&mut self, watermark: u64)
        ensures
            *final(self) == (WheelConf { watermark, ..*old(self) }),
    {
        self.watermark = watermark;
    }

    pub fn set_data_layout(&mut self, layout: DataLayout)
        ensures
            *final(self) == (WheelConf { data_layout: layout, ..*old(self) }),
    {
        self.data_layout = layout;
    }

    pub fn set_retention_policy(&mut self, policy: RetentionPolicy)
        ensures
            *final(self) == (WheelConf { retention: policy, ..*old(self) }),
    {
        self.retention = policy;
    }

    pub fn with_watermark(self, watermark: u64) -> (conf: Self)
        ensures
            conf == (WheelConf { watermark, ..self }),
    {
        let mut conf = self;
        conf.watermark = watermark;
        conf
    }

    pub fn with_data_layout(self, layout: DataLayout) -> (conf: Self)
        ensures
            conf == (WheelConf { data_layout: layout, ..self }),
    {
        let mut conf = self;
        conf.data_layout = layout;
        conf
    }

    pub fn with_retention_policy(self, policy: RetentionPolicy) -> (conf: Self)
        ensures
            conf == (WheelConf { retention: policy, ..self }),
    {
        let mut conf = self;
        conf.retention = policy;
        conf
    }

    /// Whether this is a wheel of `capacity` slots of `tick_size_ms` each.
    pub open spec fn has_shape(self, tick_size_ms: u64, capacity: usize) -> bool {
        self.tick_size_ms == tick_size_ms && self.capacity == capacity
    }
}

/// Thresholds of the planner.
#[derive(Debug, Clone, Copy)]
pub struct Heuristics {
    simd_threshold: usize,
}

impl Heuristics {
    pub closed spec fn simd_threshold_spec(self) -> usize {
        self.simd_threshold
    }

    pub fn new(simd_threshold: usize) -> (heuristics: Self)
        ensures
            heuristics.simd_threshold_spec() == simd_threshold,
    {
        Heuristics { simd_threshold }
    }

    pub fn simd_threshold(&self) -> (threshold: usize)
        ensures
            threshold == self.simd_threshold_spec(),
    {
        self.simd_threshold
    }
}

impl Default for Heuristics {
    fn default() -> (heuristics: Self)
        ensures
            heuristics.simd_threshold_spec() == DEFAULT_SIMD_THRESHOLD,
    {
        Heuristics { simd_threshold: DEFAULT_SIMD_THRESHOLD }
    }
}

/// Switches of the planner.
#[derive(Debug, Clone, Copy)]
pub struct Optimizer {
    use_hints: bool,
    heuristics: Heuristics,
}

impl Optimizer {
    pub closed spec fn use_hints_spec(self) -> bool {
        self.use_hints
    }

    pub closed spec fn heuristics_spec(self) -> Heuristics {
        self.heuristics
    }

    /// Sets whether a split plan has to beat the SIMD threshold.
    pub fn use_hints(&mut self, use_hints: bool)
        ensures
            final(self).use_hints_spec() == use_hints,
            final(self).heuristics_spec() == old(self).heuristics_spec(),
    {
        self.use_hints = use_hints;
    }

    pub fn set_heuristics(&mut self, heuristics: Heuristics)
        ensures
            final(self).use_hints_spec() == old(self).use_hints_spec(),
            final(self).heuristics_spec() == heuristics,
    {
        self.heuristics = heuristics;
    }

    pub fn hints(&self) -> (use_hints: bool)
        ensures
            use_hints == self.use_hints_spec(),
    {
        self.use_hints
    }

    pub fn heuristics(&self) -> (heuristics: Heuristics)
        ensures
            heuristics == self.heuristics_spec(),
    {
        self.heuristics
    }
}

impl Default for Optimizer {
    fn default() -> (optimizer: Self)
        ensures
            !optimizer.use_hints_spec(),
            optimizer.heuristics_spec().simd_threshold_spec() == DEFAULT_SIMD_THRESHOLD,
    {
        Optimizer { use_hints: false, heuristics: Heuristics::default() }
    }
}

/// Configuration of a hierarchical aggregation wheel.
#[derive(Debug, Clone, Copy)]
pub struct HawConf {
    /// Time at which the wheel starts, in milliseconds
    pub watermark: u64,
    pub seconds: WheelConf,
    pub minutes: WheelConf,
    pub hours: WheelConf,
    pub days: WheelConf,
    pub weeks: WheelConf,
    pub years: WheelConf,
    pub optimizer: Optimizer,
    /// Whether every tick is also logged as a delta
    pub generate_deltas: bool,
}

impl Default for HawConf {
    fn default() -> (conf: Self)
        ensures
            conf.watermark == 0,
            conf.seconds == WheelConf::standard(SECOND_TICK_MS, SECONDS),
            conf.minutes == WheelConf::standard(MINUTE_TICK_MS, MINUTES),
            conf.hours == WheelConf::standard(HOUR_TICK_MS, HOURS),
            conf.days == WheelConf::standard(DAY_TICK_MS, DAYS),
            conf.weeks == WheelConf::standard(WEEK_TICK_MS, WEEKS),
            conf.years == WheelConf::standard(YEAR_TICK_MS, YEARS),
            !conf.optimizer.use_hints_spec(),
            conf.optimizer.heuristics_spec().simd_threshold_spec() == DEFAULT_SIMD_THRESHOLD,
            !conf.generate_deltas,
            conf.has_wheel_shapes(),
    {
        HawConf {
            watermark: 0,
            seconds: WheelConf::new(SECOND_TICK_MS, SECONDS),
            minutes: WheelConf::new(MINUTE_TICK_MS, MINUTES),
            hours: WheelConf::new(HOUR_TICK_MS, HOURS),
            days: WheelConf::new(DAY_TICK_MS, DAYS),
            weeks: WheelConf::new(WEEK_TICK_MS, WEEKS),
            years: WheelConf::new(YEAR_TICK_MS, YEARS),
            optimizer: Optimizer::default(),
            generate_deltas: false,
        }
    }
}

impl WheelConf {
    /// What `WheelConf::new` gives.
    pub open spec fn standard(tick_size_ms: u64, capacity: usize) -> WheelConf {
        WheelConf {
            capacity,
            watermark: 0,
            tick_size_ms,
            data_layout: DataLayout::Array,
            retention: RetentionPolicy::Drop,
        }
    }
}

impl HawConf {
    /// Whether each wheel has the slot count and slot length of its
    /// granularity: 60 seconds, 60 minutes, 24 hours, 7 days, 52 weeks and
    /// 10 years.
    pub open spec fn has_wheel_shapes(self) -> bool {
        &&& self.seconds.has_shape(SECOND_TICK_MS, SECONDS)
        &&& self.minutes.has_shape(MINUTE_TICK_MS, MINUTES)
        &&& self.hours.has_shape(HOUR_TICK_MS, HOURS)
        &&& self.days.has_shape(DAY_TICK_MS, DAYS)
        &&& self.weeks.has_shape(WEEK_TICK_MS, WEEKS)
        &&& self.years.has_shape(YEAR_TICK_MS, YEARS)
    }

    /// Whether any wheel is laid out with prefix sums.
    pub open spec fn uses_prefix(self) -> bool {
        ||| self.seconds.data_layout == DataLayout::Prefix
        ||| self.minutes.data_layout == DataLayout::Prefix
        ||| self.hours.data_layout == DataLayout::Prefix
        ||| self.days.data_layout == DataLayout::Prefix
        ||| self.weeks.data_layout == DataLayout::Prefix
        ||| self.years.data_layout == DataLayout::Prefix
    }

    /// Tells whether each wheel has the shape of its granularity.
    pub fn check_wheel_shapes(&self) -> (ok: bool)
        ensures
            ok == self.has_wheel_shapes(),
    {
        self.seconds.tick_size_ms == SECOND_TICK_MS && self.seconds.capacity == SECONDS
            && self.minutes.tick_size_ms == MINUTE_TICK_MS && self.minutes.capacity == MINUTES
            && self.hours.tick_size_ms == HOUR_TICK_MS && self.hours.capacity == HOURS
            && self.days.tick_size_ms == DAY_TICK_MS && self.days.capacity == DAYS
            && self.weeks.tick_size_ms == WEEK_TICK_MS && self.weeks.capacity == WEEKS
            && self.years.tick_size_ms == YEAR_TICK_MS && self.years.capacity == YEARS
    }

    /// Tells whether any wheel is laid out with prefix sums.
    pub fn check_uses_prefix(&self) -> (yes: bool)
        ensures
            yes == self.uses_prefix(),
    {
        self.seconds.data_layout == DataLayout::Prefix || self.minutes.data_layout
            == DataLayout::Prefix || self.hours.data_layout == DataLayout::Prefix
            || self.days.data_layout == DataLayout::Prefix || self.weeks.data_layout
            == DataLayout::Prefix || self.years.data_layout == DataLayout::Prefix
    }

    /// Starts every wheel, and the hierarchy, at `watermark`.
    pub fn with_watermark(self, watermark: u64) -> (conf: Self)
        ensures
            conf == (HawConf {
                watermark,
                seconds: WheelConf { watermark, ..self.seconds },
                minutes: WheelConf { watermark, ..self.minutes },
                hours: WheelConf { watermark, ..self.hours },
                days: WheelConf { watermark, ..self.days },
                weeks: WheelConf { watermark, ..self.weeks },
                years: WheelConf { watermark, ..self.years },
                ..self
            }),
    {
        let mut conf = self;
        conf.seconds.set_watermark(watermark);
        conf.minutes.set_watermark(watermark);
        conf.hours.set_watermark(watermark);
        conf.days.set_watermark(watermark);
        conf.weeks.set_watermark(watermark);
        conf.years.set_watermark(watermark);
        conf.watermark = watermark;
        conf
    }

    /// Lays out every wheel with prefix sums.
    pub fn with_prefix_sum(self) -> (conf: Self)
        ensures
            conf == (HawConf {
                seconds: WheelConf { data_layout: DataLayout::Prefix, ..self.seconds },
                minutes: WheelConf { data_layout: DataLayout::Prefix, ..self.minutes },
                hours: WheelConf { data_layout: DataLayout::Prefix, ..self.hours },
                days: WheelConf { data_layout: DataLayout::Prefix, ..self.days },
                weeks: WheelConf { data_layout: DataLayout::Prefix, ..self.weeks },
                years: WheelConf { data_layout: DataLayout::Prefix, ..self.years },
                ..self
            }),
    {
        let mut conf = self;
        conf.seconds.set_data_layout(DataLayout::Prefix);
        conf.minutes.set_data_layout(DataLayout::Prefix);
        conf.hours.set_data_layout(DataLayout::Prefix);
        conf.days.set_data_layout(DataLayout::Prefix);
        conf.weeks.set_data_layout(DataLayout::Prefix);
        conf.years.set_data_layout(DataLayout::Prefix);
        conf
    }

    /// Gives every wheel the retention `policy`.
    pub fn with_retention_policy(self, policy: RetentionPolicy) -> (conf: Self)
        ensures
            conf == (HawConf {
                seconds: WheelConf { retention: policy, ..self.seconds },
                minutes: WheelConf { retention: policy, ..self.minutes },
                hours: WheelConf { retention: policy, ..self.hours },
                days: WheelConf { retention: policy, ..self.days },
                weeks: WheelConf { retention: policy, ..self.weeks },
                years: WheelConf { retention: policy, ..self.years },
                ..self
            }),
    {
        let mut conf = self;
        conf.seconds.set_retention_policy(policy);
        conf.minutes.set_retention_policy(policy);
        conf.hours.set_retention_policy(policy);
        conf.days.set_retention_policy(policy);
        conf.weeks.set_retention_policy(policy);
        conf.years.set_retention_policy(policy);
        conf
    }

    pub fn with_seconds(self, seconds: WheelConf) -> (conf: Self)
        ensures
            conf == (HawConf { seconds, ..self }),
    {
        let mut conf = self;
        conf.seconds = seconds;
        conf
    }

    pub fn with_minutes(self, minutes: WheelConf) -> (conf: Self)
        ensures
            conf == (HawConf { minutes, ..self }),
    {
        let mut conf = self;
        conf.minutes = minutes;
        conf
    }

    pub fn with_hours(self, hours: WheelConf) -> (conf: Self)
        ensures
            conf == (HawConf { hours, ..self }),
    {
        let mut conf = self;
        conf.hours = hours;
        conf
    }

    pub fn with_days(self, days: WheelConf) -> (conf: Self)
        ensures
            conf == (HawConf { days, ..self }),
    {
        let mut conf = self;
        conf.days = days;
        conf
    }

    pub fn with_weeks(self, weeks: WheelConf) -> (conf: Self)
        ensures
            conf == (HawConf { weeks, ..self }),
    {
        let mut conf = self;
        conf.weeks = weeks;
        conf
    }

    pub fn with_years(self, years: WheelConf) -> (conf: Self)
        ensures
            conf == (HawConf { years, ..self }),
    {
        let mut conf = self;
        conf.years = years;
        conf
    }

    /// Turns the delta log on.
    pub fn with_deltas(self) -> (conf: Self)
        ensures
            conf == (HawConf { generate_deltas: true, ..self }),
    {
        let mut conf = self;
        conf.generate_deltas = true;
        conf
    }
}

} // verus!
