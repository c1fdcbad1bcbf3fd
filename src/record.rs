use vstd::prelude::*;

verus! {

/// Nanoseconds in one second.
pub const NANOS_PER_SECOND: u32 = 1_000_000_000;

/// A point in time: whole seconds since the Unix epoch and the nanoseconds
/// past that second (at or above one second only inside a leap second).
#[derive(Clone, Copy, Debug, PartialEq, Eq, Structural)]
pub struct Timestamp {
    pub secs: i64,
    pub nanos: u32,
}

impl Timestamp {
    /// The same instant with its sub-second part dropped.
    pub open spec fn spec_truncated(self) -> Timestamp {
        Timestamp { secs: self.secs, nanos: (self.nanos - self.nanos % NANOS_PER_SECOND) as u32 }
    }

    pub fn truncated(&self) -> (r: Timestamp)
        ensures
            r == self.spec_truncated(),
    {
        Timestamp { secs: self.secs, nanos: self.nanos - self.nanos % NANOS_PER_SECOND }
    }
}

/// Descriptor of a metric; it carries nothing the aggregation reads.
#[derive(Clone, Debug)]
pub struct DataMetric {
    pub typ: String,
    pub contains: String,
}

/// One timestamped sample of a metric.
#[derive(Clone, Copy, Debug)]
pub struct DataPoint<V> {
    pub time: Timestamp,
    pub value: V,
}

impl<V> DataPoint<V> {
    /// Samples are equal when they fall on the same instant.
    pub fn eq(&self, other: &DataPoint<V>) -> (r: bool)
        ensures
            r == (self.time == other.time),
    {
        self.time == other.time
    }
}

/// One line of the event log.
#[derive(Clone, Debug)]
pub enum Record<V> {
    Metric { data: DataMetric, metric: String },
    Point { data: DataPoint<V>, metric: String },
}

impl<V> Record<V> {
    /// Events are equal by time alone: two points when they fall on the same
    /// instant, and any two descriptors; a descriptor never equals a point.
    /// This agrees with `cmp` returning `Equal`.
    pub open spec fn spec_same(&self, other: &Record<V>) -> bool {
        match (self, other) {
            (Record::Metric { .. }, Record::Metric { .. }) => true,
            (Record::Point { data: l, .. }, Record::Point { data: r, .. }) => l.time == r.time,
            _ => false,
        }
    }

    pub fn eq(&self, other: &Record<V>) -> (r: bool)
        ensures
            r == self.spec_same(other),
    {
        match (self, other) {
            (Record::Metric { .. }, Record::Metric { .. }) => true,
            (Record::Point { data: l, .. }, Record::Point { data: r, .. }) => l.time == r.time,
            _ => false,
        }
    }

    /// Points are ordered by time alone; a descriptor compares below any
    /// point, and two descriptors compare equal.
    pub open spec fn spec_cmp(&self, other: &Record<V>) -> core::cmp::Ordering {
        match (self, other) {
            (Record::Metric { .. }, Record::Metric { .. }) => core::cmp::Ordering::Equal,
            (Record::Point { data: l, .. }, Record::Point { data: r, .. }) =>
                if l.time.secs < r.time.secs || (l.time.secs == r.time.secs && l.time.nanos
                    < r.time.nanos) {
                    core::cmp::Ordering::Less
                } else if l.time == r.time {
                    core::cmp::Ordering::Equal
                } else {
                    core::cmp::Ordering::Greater
                },
            (Record::Metric { .. }, Record::Point { .. }) => core::cmp::Ordering::Less,
            (Record::Point { .. }, Record::Metric { .. }) => core::cmp::Ordering::Greater,
        }
    }

    /// The order of `cmp`, which is defined between any two events.
    pub fn partial_cmp(&self, other: &Record<V>) -> (r: Option<core::cmp::Ordering>)
        ensures
            r == Some(self.spec_cmp(other)),
    {
        Some(self.cmp(other))
    }

    pub fn cmp(&self, other: &Record<V>) -> (r: core::cmp::Ordering)
        ensures
            r == self.spec_cmp(other),
    {
        match (self, other) {
            (Record::Metric { .. }, Record::Metric { .. }) => core::cmp::Ordering::Equal,
            (Record::Point { data: l, .. }, Record::Point { data: r, .. }) => {
                if l.time.secs < r.time.secs || (l.time.secs == r.time.secs && l.time.nanos
                    < r.time.nanos) {
                    core::cmp::Ordering::Less
                } else if l.time == r.time {
                    core::cmp::Ordering::Equal
                } else {
                    core::cmp::Ordering::Greater
                }
            },
            (Record::Metric { .. }, Record::Point { .. }) => core::cmp::Ordering::Less,
            (Record::Point { .. }, Record::Metric { .. }) => core::cmp::Ordering::Greater,
        }
    }
}

} // verus!
