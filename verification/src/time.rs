//! Wall-clock timestamps as they are persisted: whole seconds since the Unix
//! epoch, plus a sub-second part. The store rounds to whole seconds.

use vstd::prelude::*;

verus! {

/// A wall-clock instant, in seconds and nanoseconds since the Unix epoch.
#[derive(Clone, Copy, Debug, PartialEq, Eq, Structural)]
pub struct SqlSystemTime {
    pub secs: u64,
    pub nanos: u32,
}

pub const NANOS_PER_SEC: u32 = 1000000000;

impl SqlSystemTime {
    /// The sub-second part never reaches a whole second.
    pub open spec fn wf(self) -> bool {
        self.nanos < NANOS_PER_SEC
    }

    /// The instant as a total count of nanoseconds, for ordering.
    pub open spec fn as_nanos(self) -> int {
        self.secs * (NANOS_PER_SEC as int) + self.nanos
    }

    pub open spec fn spec_le(self, other: Self) -> bool {
        self.as_nanos() <= other.as_nanos()
    }

    /// Whether this instant is no later than `other`.
    pub fn le(&self, other: &Self) -> (r: bool)
        requires
            self.wf(),
            other.wf(),
        ensures
            r == self.spec_le(*other),
    {
        self.secs < other.secs || (self.secs == other.secs && self.nanos <= other.nanos)
    }

    /// Whether this instant is strictly earlier than `other`.
    pub fn lt(&self, other: &Self) -> (r: bool)
        requires
            self.wf(),
            other.wf(),
        ensures
            r == (self.as_nanos() < other.as_nanos()),
    {
        self.secs < other.secs || (self.secs == other.secs && self.nanos < other.nanos)
    }

    /// The current wall-clock time.
    ///
    /// Relies on std::time::SystemTime::now; the result is converted to
    /// seconds and nanoseconds since the Unix epoch. Nothing is promised of
    /// the value beyond well-formedness: the clock is outside the model.
    #[verifier::external_body]
    pub fn now() -> (t: Self)
        ensures
            t.wf(),
    {
        let d = std::time::SystemTime::now()
            .duration_since(std::time::SystemTime::UNIX_EPOCH)
            .unwrap_or(std::time::Duration::ZERO);
        SqlSystemTime { secs: d.as_secs(), nanos: d.subsec_nanos() }
    }

    /// The current wall-clock time, rounded down to a whole second.
    pub fn now_rounded() -> (t: Self)
        ensures
            t.wf(),
            t.nanos == 0,
    {
        Self::now().round()
    }

    /// This instant rounded down to a whole second.
    pub fn round(&self) -> (t: Self)
        ensures
            t.secs == self.secs,
            t.nanos == 0,
            t.wf(),
            t.as_nanos() <= self.as_nanos(),
    {
        SqlSystemTime { secs: self.secs, nanos: 0 }
    }
}

/// The instant that lies `timestamp` whole seconds after the Unix epoch.
pub fn from_timestamp(timestamp: u64) -> (t: SqlSystemTime)
    ensures
        t.secs == timestamp,
        t.nanos == 0,
        t.wf(),
{
    SqlSystemTime { secs: timestamp, nanos: 0 }
}

/// The count of whole seconds between the Unix epoch and `time`.
pub fn to_timestamp(time: SqlSystemTime) -> (r: u64)
    ensures
        r == time.secs,
{
    time.secs
}

} // verus!
