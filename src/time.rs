//! Spans of time as whole nanoseconds, and instants on the monotonic clock.
use std::cmp::Reverse;
use std::time::{Duration, Instant};
use vstd::prelude::*;

verus! {

/// Nanoseconds in one millisecond.
pub const NANOS_PER_MILLI: u64 = 1_000_000;

/// Nanoseconds in one second.
pub const NANOS_PER_SEC: u64 = 1_000_000_000;

/// A non-negative span of time, counted in whole nanoseconds.
#[derive(Clone, Copy, Debug, PartialEq, Eq, Structural, PartialOrd, Ord, Hash, Default)]
pub struct TimeSpan {
    nanos: u64,
}

impl TimeSpan {
    /// The length of the span in nanoseconds.
    pub closed spec fn nanos_spec(self) -> int {
        self.nanos as int
    }

    pub fn from_nanos(nanos: u64) -> (r: TimeSpan)
        ensures
            r.nanos_spec() == nanos,
    {
        TimeSpan { nanos }
    }

    pub fn from_millis(millis: u64) -> (r: TimeSpan)
        requires
            millis * NANOS_PER_MILLI <= u64::MAX,
        ensures
            r.nanos_spec() == millis * NANOS_PER_MILLI,
    {
        TimeSpan { nanos: millis * NANOS_PER_MILLI }
    }

    pub fn from_secs(secs: u64) -> (r: TimeSpan)
        requires
            secs * NANOS_PER_SEC <= u64::MAX,
        ensures
            r.nanos_spec() == secs * NANOS_PER_SEC,
    {
        TimeSpan { nanos: secs * NANOS_PER_SEC }
    }

    /// A span holds from zero up to `u64::MAX` nanoseconds.
    pub proof fn lemma_nanos_bounds(self)
        ensures
            0 <= self.nanos_spec() <= u64::MAX,
    {
    }

    pub fn as_nanos(&self) -> (r: u64)
        ensures
            r == self.nanos_spec(),
    {
        self.nanos
    }
}


/// A reading of the monotonic clock, opaque to the proofs.
#[verifier::external_type_specification]
#[verifier::external_body]
pub struct ExInstant(Instant);

/// The order-reversing wrapper of `std::cmp`; its one field is public.
#[verifier::external_type_specification]
#[verifier::reject_recursive_types(T)]
pub struct ExReverse<T>(Reverse<T>);

/// Relies on `Instant::now`: reads the monotonic clock; nothing is known of the reading.
pub assume_specification[ Instant::now ]() -> Instant;

/// Relies on `Instant::saturating_duration_since`: the span from `earlier` to the
/// instant, zero when `earlier` is the later one.
pub assume_specification[ Instant::saturating_duration_since ](
    instant: &Instant,
    earlier: Instant,
) -> Duration;

/// Relies on `Duration::as_nanos`: the whole nanoseconds that the duration holds.
pub assume_specification[ Duration::as_nanos ](duration: &Duration) -> u128;

/// The larger of a nanosecond count and the largest `u64`, brought into `u64`.
pub open spec fn saturated(nanos: int) -> int {
    if nanos > u64::MAX {
        u64::MAX as int
    } else {
        nanos
    }
}

/// Brings a `u128` count of nanoseconds into a `u64`, saturating at `u64::MAX`.
pub fn saturate_nanos(nanos: u128) -> (r: u64)
    ensures
        r == saturated(nanos as int),
{
    if nanos > u64::MAX as u128 {
        u64::MAX
    } else {
        nanos as u64
    }
}

/// The instant at which a response completed.
///
/// Timestamps are ordered by age: an older timestamp is the greater one.
#[derive(Clone, Copy, Debug, PartialEq, Eq, PartialOrd, Ord, Hash)]
pub struct ResponseTimestamp(Reverse<Instant>);

impl ResponseTimestamp {
    /// The clock reading that the timestamp holds.
    pub closed spec fn instant_spec(self) -> Instant {
        self.0.0
    }

    /// The timestamp of this moment.
    pub fn now() -> (r: ResponseTimestamp) {
        ResponseTimestamp(Reverse(Instant::now()))
    }

    /// The clock reading that the timestamp holds.
    pub fn instant(&self) -> (r: Instant)
        ensures
            r == self.instant_spec(),
    {
        self.0.0
    }

    /// The time that has passed since the timestamp, saturating at `u64::MAX`
    /// nanoseconds; zero for a timestamp in the future.
    pub fn elapsed(&self) -> (r: TimeSpan) {
        let nanos = Instant::now().saturating_duration_since(self.0.0).as_nanos();
        TimeSpan::from_nanos(saturate_nanos(nanos))
    }
}

impl From<Instant> for ResponseTimestamp {
    fn from(instant: Instant) -> (r: ResponseTimestamp) {
        ResponseTimestamp(Reverse(instant))
    }
}

impl vstd::std_specs::convert::FromSpecImpl<Instant> for ResponseTimestamp {
    open spec fn obeys_from_spec() -> bool {
        true
    }

    closed spec fn from_spec(instant: Instant) -> ResponseTimestamp {
        ResponseTimestamp(Reverse(instant))
    }
}

} // verus!
