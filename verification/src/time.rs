//! Time values as whole nanoseconds.
//!
//! The audio logic measures spans of audio and points on the wall clock.
//! Both are kept here as plain nanosecond counts, so that every comparison
//! and every sum the logic makes can be stated and checked exactly.
use vstd::prelude::*;

verus! {

pub const NANOS_PER_MILLI: u128 = 1_000_000;

pub const NANOS_PER_SEC: u128 = 1_000_000_000;

/// A span of time, with nanosecond resolution.
#[derive(Clone, Copy, Debug, PartialEq, Eq, Structural, PartialOrd, Ord, Hash)]
pub struct Duration {
    pub nanos: u128,
}

/// A point on the wall clock, as nanoseconds since the UNIX epoch.
#[derive(Clone, Copy, Debug, PartialEq, Eq, Structural, PartialOrd, Ord, Hash)]
pub struct SystemTime {
    pub nanos: u128,
}

impl Duration {
    /// The empty span.
    pub fn zero() -> (d: Duration)
        ensures
            d.nanos == 0,
    {
        Duration { nanos: 0 }
    }

    pub fn from_millis(millis: u64) -> (d: Duration)
        ensures
            d.nanos == millis * NANOS_PER_MILLI,
    {
        Duration { nanos: millis as u128 * NANOS_PER_MILLI }
    }

    pub fn from_secs(secs: u64) -> (d: Duration)
        ensures
            d.nanos == secs * NANOS_PER_SEC,
    {
        Duration { nanos: secs as u128 * NANOS_PER_SEC }
    }

    pub fn from_nanos(nanos: u128) -> (d: Duration)
        ensures
            d.nanos == nanos,
    {
        Duration { nanos }
    }

    /// Whole milliseconds in this span (rounded down).
    pub fn as_millis(&self) -> (ms: u128)
        ensures
            ms == self.nanos / NANOS_PER_MILLI,
    {
        self.nanos / NANOS_PER_MILLI
    }

    pub fn as_nanos(&self) -> (ns: u128)
        ensures
            ns == self.nanos,
    {
        self.nanos
    }

    pub fn is_zero(&self) -> (b: bool)
        ensures
            b == (self.nanos == 0),
    {
        self.nanos == 0
    }

    /// The sum of two spans.
    pub fn plus(self, other: Duration) -> (d: Duration)
        requires
            self.nanos + other.nanos <= u128::MAX,
        ensures
            d.nanos == self.nanos + other.nanos,
    {
        Duration { nanos: self.nanos + other.nanos }
    }

    /// The difference of two spans; `other` may not be longer than `self`.
    pub fn minus(self, other: Duration) -> (d: Duration)
        requires
            other.nanos <= self.nanos,
        ensures
            d.nanos == self.nanos - other.nanos,
    {
        Duration { nanos: self.nanos - other.nanos }
    }
}

impl SystemTime {
    pub fn from_nanos(nanos: u128) -> (t: SystemTime)
        ensures
            t.nanos == nanos,
    {
        SystemTime { nanos }
    }

    /// The point `d` after this one.
    pub fn plus(self, d: Duration) -> (t: SystemTime)
        requires
            self.nanos + d.nanos <= u128::MAX,
        ensures
            t.nanos == self.nanos + d.nanos,
    {
        SystemTime { nanos: self.nanos + d.nanos }
    }

    /// The point `d` before this one; it may not lie before the epoch.
    pub fn minus(self, d: Duration) -> (t: SystemTime)
        requires
            d.nanos <= self.nanos,
        ensures
            t.nanos == self.nanos - d.nanos,
    {
        SystemTime { nanos: self.nanos - d.nanos }
    }

    /// The span from `earlier` to this point, or `None` when `earlier`
    /// lies after this point.
    pub fn duration_since(self, earlier: SystemTime) -> (r: Option<Duration>)
        ensures
            earlier.nanos <= self.nanos ==> r == Some(Duration { nanos: (self.nanos - earlier.nanos) as u128 }),
            self.nanos < earlier.nanos ==> r.is_none(),
    {
        if earlier.nanos <= self.nanos {
            Some(Duration { nanos: self.nanos - earlier.nanos })
        } else {
            None
        }
    }
}

#[verifier::external_type_specification]
#[verifier::external_body]
pub struct ExStdSystemTime(std::time::SystemTime);

#[verifier::external_type_specification]
#[verifier::external_body]
pub struct ExStdInstant(std::time::Instant);

/// Reads the wall clock (`std::time::SystemTime::now`).  Nothing is
/// promised of the value: it depends on the machine's clock.
#[verifier::external_body]
fn read_system_clock() -> std::time::SystemTime {
    std::time::SystemTime::now()
}

/// The span from the UNIX epoch to `t`
/// (`std::time::SystemTime::duration_since` with `UNIX_EPOCH`), or `None`
/// when `t` lies before the epoch.  Nothing more is stated: the value
/// depends on the clock reading handed in.
#[verifier::external_body]
fn std_time_since_epoch(t: &std::time::SystemTime) -> Option<std::time::Duration> {
    t.duration_since(std::time::UNIX_EPOCH).ok()
}

/// The most nanoseconds a `std::time::Duration` can hold: its whole
/// seconds are a `u64`, and its fraction is below one second.
pub open spec fn max_std_duration_nanos() -> int {
    0xffff_ffff_ffff_ffff * NANOS_PER_SEC + (NANOS_PER_SEC - 1)
}

/// Whole nanoseconds in a `std::time::Duration`
/// (`std::time::Duration::as_nanos`).  The contract states only the bound
/// that the type itself sets (whole seconds held in a `u64`): the spans
/// handed in come from clock readings.
#[verifier::external_body]
fn std_duration_nanos(d: &std::time::Duration) -> (nanos: u128)
    ensures
        nanos <= max_std_duration_nanos(),
{
    d.as_nanos()
}

/// Reads the monotonic clock (`std::time::Instant::now`).  Nothing is
/// promised of the value.
#[verifier::external_body]
pub(crate) fn instant_now() -> std::time::Instant {
    std::time::Instant::now()
}

/// Time passed since `since` on the monotonic clock
/// (`std::time::Instant::elapsed`).  Nothing is promised of the value: it
/// depends on when the call is made.
#[verifier::external_body]
fn std_instant_elapsed(since: &std::time::Instant) -> std::time::Duration {
    since.elapsed()
}

/// The current wall-clock time.  A clock that reads before the UNIX epoch
/// is taken as the epoch itself.
pub fn now() -> (t: SystemTime)
    ensures
        t.nanos <= max_std_duration_nanos(),
{
    let t = read_system_clock();
    match std_time_since_epoch(&t) {
        Some(d) => SystemTime { nanos: std_duration_nanos(&d) },
        None => SystemTime { nanos: 0 },
    }
}

/// Time passed on the monotonic clock since `since`.
pub fn elapsed_since(since: &std::time::Instant) -> (d: Duration)
    ensures
        d.nanos <= max_std_duration_nanos(),
{
    let d = std_instant_elapsed(since);
    Duration { nanos: std_duration_nanos(&d) }
}

} // verus!
