//! The time axis of the live charts, and the decisions of the refresh loop.
use crate::time::{TimeSpan, NANOS_PER_SEC};
use vstd::prelude::*;

verus! {

/// `nanos` in whole seconds, rounded down.
pub open spec fn floor_secs(nanos: int) -> int {
    nanos / (NANOS_PER_SEC as int)
}

/// `nanos` in whole seconds, rounded up.
pub open spec fn ceil_secs(nanos: int) -> int {
    if nanos % (NANOS_PER_SEC as int) == 0 {
        nanos / (NANOS_PER_SEC as int)
    } else {
        nanos / (NANOS_PER_SEC as int) + 1
    }
}

pub open spec fn max_int(a: int, b: int) -> int {
    if a >= b {
        a
    } else {
        b
    }
}

/// The lower bound of the axis, in seconds, for samples from `earliest` to
/// `latest`: the later of the first sample and one window before the last,
/// rounded up.
pub open spec fn lower_bound(earliest: int, latest: int, window_length: int) -> int {
    ceil_secs(max_int(earliest, latest - window_length))
}

/// The upper bound of the axis, in seconds: the later of the last sample and
/// one window after the first, rounded down, with two seconds to spare.
pub open spec fn upper_bound(earliest: int, latest: int, window_length: int) -> int {
    floor_secs(max_int(latest, earliest + window_length)) + 2
}

/// The axis shows at least one window of history, starts no earlier than the
/// first sample, and reaches more than one second past the last sample.
pub proof fn lemma_axis_covers_the_window(earliest: int, latest: int, window_length: int)
    requires
        0 <= earliest <= latest,
        0 <= window_length,
    ensures
        lower_bound(earliest, latest, window_length) * NANOS_PER_SEC >= earliest,
        upper_bound(earliest, latest, window_length) * NANOS_PER_SEC > latest + NANOS_PER_SEC,
        (upper_bound(earliest, latest, window_length) - lower_bound(
            earliest,
            latest,
            window_length,
        )) * NANOS_PER_SEC >= window_length,
{
    let s = NANOS_PER_SEC as int;
    let from = max_int(earliest, latest - window_length);
    let to = max_int(latest, earliest + window_length);
    assert(to - from == window_length);
    let lower = lower_bound(earliest, latest, window_length);
    let upper = upper_bound(earliest, latest, window_length);
    assert(from >= 0);
    assert(lower * s >= from && lower * s < from + s) by {
        let q = from / s;
        assert(q * s <= from && from < q * s + s) by (nonlinear_arith)
            requires
                s == 1_000_000_000,
                q == from / s,
                from >= 0,
        ;
        assert(from % s == from - q * s) by (nonlinear_arith)
            requires
                s == 1_000_000_000,
                q == from / s,
                from >= 0,
        ;
        if from % s == 0 {
            assert(lower == q);
        } else {
            assert(lower == q + 1);
            assert(lower * s == q * s + s) by (nonlinear_arith)
                requires
                    lower == q + 1,
            ;
        }
    }
    assert((upper - 2) * s <= to && to < (upper - 2) * s + s) by {
        let q = to / s;
        assert(q * s <= to && to < q * s + s) by (nonlinear_arith)
            requires
                s == 1_000_000_000,
                q == to / s,
                to >= 0,
        ;
        assert(upper - 2 == q);
    }
    assert(upper * s == (upper - 2) * s + 2 * s) by (nonlinear_arith);
    assert((upper - lower) * s == upper * s - lower * s) by (nonlinear_arith);
}

/// The bounds of the axis, in seconds, for samples from `earliest` to `latest`
/// (nanoseconds since the start).
pub fn window_bounds(earliest: TimeSpan, latest: TimeSpan, window_length: TimeSpan) -> (r: (
    u64,
    u64,
))
    ensures
        r.0 == lower_bound(earliest.nanos_spec(), latest.nanos_spec(), window_length.nanos_spec()),
        r.1 == upper_bound(earliest.nanos_spec(), latest.nanos_spec(), window_length.nanos_spec()),
{
    let first = earliest.as_nanos() as u128;
    let last = latest.as_nanos() as u128;
    let length = window_length.as_nanos() as u128;
    let second = NANOS_PER_SEC as u128;
    let from = if last >= first + length {
        last - length
    } else {
        first
    };
    let to = if last >= first + length {
        last
    } else {
        first + length
    };
    let lower = if from % second == 0 {
        from / second
    } else {
        from / second + 1
    };
    let upper = to / second + 2;
    proof {
        assert(to / second <= u64::MAX / 1_000_000_000 * 2 + 1) by (nonlinear_arith)
            requires
                to <= 2 * (u64::MAX as int),
                second == 1_000_000_000,
        ;
        assert(from / second <= u64::MAX / 1_000_000_000 + 1) by (nonlinear_arith)
            requires
                from <= u64::MAX as int,
                second == 1_000_000_000,
        ;
    }
    (lower as u64, upper as u64)
}

/// The time axis of the charts: the span of the samples so far, and the bounds
/// shown, recomputed with every sample.
#[derive(Clone, Copy, Debug)]
pub struct DisplayWindow {
    window_length: TimeSpan,
    samples: Option<(TimeSpan, TimeSpan)>,
    bounds: (u64, u64),
}

impl DisplayWindow {
    /// The earliest and the latest sample, if any.
    pub closed spec fn span(&self) -> Option<(int, int)> {
        match self.samples {
            Some((earliest, latest)) => Some((earliest.nanos_spec(), latest.nanos_spec())),
            None => None,
        }
    }

    /// The length of history that the axis shows at least, in nanoseconds.
    pub closed spec fn length(&self) -> int {
        self.window_length.nanos_spec()
    }

    /// The bounds shown, in seconds.
    pub closed spec fn shown(&self) -> (int, int) {
        (self.bounds.0 as int, self.bounds.1 as int)
    }

    /// The bounds are those of the samples; before any sample, one window from zero.
    pub closed spec fn wf(&self) -> bool {
        match self.span() {
            Some((earliest, latest)) => earliest <= latest && self.shown() == (
                lower_bound(earliest, latest, self.length()),
                upper_bound(earliest, latest, self.length()),
            ),
            None => self.shown() == (0int, floor_secs(self.length())),
        }
    }

    /// An axis with no samples, one window long from zero.
    pub fn new(window_length: TimeSpan) -> (r: DisplayWindow)
        ensures
            r.wf(),
            r.span() is None,
            r.length() == window_length.nanos_spec(),
    {
        let bounds = (0, window_length.as_nanos() / NANOS_PER_SEC);
        DisplayWindow { window_length, samples: None, bounds }
    }

    /// Records a sample taken `at` nanoseconds after the start, and recomputes
    /// the bounds.
    pub fn record_sample(&mut self, at: TimeSpan)
        requires
            old(self).wf(),
        ensures
            final(self).wf(),
            final(self).length() == old(self).length(),
            final(self).span() == Some(
                match old(self).span() {
                    Some((earliest, latest)) => (
                        if at.nanos_spec() < earliest {
                            at.nanos_spec()
                        } else {
                            earliest
                        },
                        if at.nanos_spec() > latest {
                            at.nanos_spec()
                        } else {
                            latest
                        },
                    ),
                    None => (at.nanos_spec(), at.nanos_spec()),
                },
            ),
    {
        let (earliest, latest) = match self.samples {
            Some((earliest, latest)) => (
                if at.as_nanos() < earliest.as_nanos() {
                    at
                } else {
                    earliest
                },
                if at.as_nanos() > latest.as_nanos() {
                    at
                } else {
                    latest
                },
            ),
            None => (at, at),
        };
        self.samples = Some((earliest, latest));
        self.bounds = window_bounds(earliest, latest, self.window_length);
    }

    /// The bounds shown, in seconds: lower, then upper.
    pub fn bounds(&self) -> (r: (u64, u64))
        ensures
            (r.0 as int, r.1 as int) == self.shown(),
    {
        self.bounds
    }

    /// The length of history that the axis shows at least.
    pub fn window_length(&self) -> (r: TimeSpan)
        ensures
            r.nanos_spec() == self.length(),
    {
        self.window_length
    }
}

/// What a bounded receive of a round result gave.
#[derive(Clone, Copy, Debug, PartialEq, Eq, Structural)]
pub enum ReceiveOutcome {
    /// A round result arrived.
    Received,
    /// The refresh interval ran out first.
    TimedOut,
    /// Every sender is gone: no result will come.
    Disconnected,
}

/// Whether the refresh loop goes on: not once the channel is closed, nor once a
/// quit was asked for.
pub open spec fn loop_goes_on(outcome: ReceiveOutcome, quit_requested: bool) -> bool {
    outcome != ReceiveOutcome::Disconnected && !quit_requested
}

/// Decides, after a receive and a poll for a quit, whether the loop goes on.
pub fn keep_refreshing(outcome: ReceiveOutcome, quit_requested: bool) -> (r: bool)
    ensures
        r == loop_goes_on(outcome, quit_requested),
{
    match outcome {
        ReceiveOutcome::Disconnected => false,
        _ => !quit_requested,
    }
}

/// What is left of a refresh interval of `interval` once `spent` has passed;
/// nothing once it has run out.
pub fn remaining_budget(interval: TimeSpan, spent: TimeSpan) -> (r: TimeSpan)
    ensures
        r.nanos_spec() == if spent.nanos_spec() >= interval.nanos_spec() {
            0
        } else {
            interval.nanos_spec() - spent.nanos_spec()
        },
{
    if spent.as_nanos() >= interval.as_nanos() {
        TimeSpan::from_nanos(0)
    } else {
        TimeSpan::from_nanos(interval.as_nanos() - spent.as_nanos())
    }
}

} // verus!
