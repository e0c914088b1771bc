//! Durations counted in a time scale's units.

use vstd::prelude::*;

verus! {

/// A span of time: `ticks` units of which `time_scale` make one second.
#[derive(Debug, Clone, Copy, PartialEq, Eq)]
pub struct Duration {
    pub ticks: u128,
    pub time_scale: u32,
}

/// The time scale actually used: a scale of zero is read as one, so that
/// durations stay defined (and meaningless) instead of dividing by zero.
pub open spec fn effective_scale(time_scale: u32) -> u32 {
    if time_scale == 0 {
        1
    } else {
        time_scale
    }
}

impl Duration {
    /// Zero ticks in the given time scale (zero read as one).
    pub fn zero(time_scale: u32) -> (r: Duration)
        ensures
            r.ticks == 0,
            r.time_scale == effective_scale(time_scale),
    {
        Duration { ticks: 0, time_scale: if time_scale == 0 { 1 } else { time_scale } }
    }

    /// `ticks` units of the given time scale (zero read as one).
    pub fn from_ticks(ticks: u128, time_scale: u32) -> (r: Duration)
        ensures
            r.ticks == ticks,
            r.time_scale == effective_scale(time_scale),
    {
        Duration { ticks, time_scale: if time_scale == 0 { 1 } else { time_scale } }
    }

    /// Whole seconds.
    pub fn whole_seconds(&self) -> (r: u128)
        requires
            self.time_scale > 0,
        ensures
            r == (self.ticks as int) / (self.time_scale as int),
    {
        self.ticks / self.time_scale as u128
    }

    /// Nanoseconds past the whole seconds, rounded down.
    pub fn subsec_nanoseconds(&self) -> (r: u32)
        requires
            self.time_scale > 0,
        ensures
            r == ((self.ticks as int) % (self.time_scale as int)) * 1_000_000_000 / (self.time_scale as int),
            r < 1_000_000_000,
    {
        let rem = self.ticks % self.time_scale as u128;
        proof {
            let (m, t) = (rem as int, self.time_scale as int);
            assert(m * 1_000_000_000 < t * 1_000_000_000) by (nonlinear_arith)
                requires 0 <= m < t;
            assert(m * 1_000_000_000 / t < 1_000_000_000) by (nonlinear_arith)
                requires 0 <= m < t, m * 1_000_000_000 < t * 1_000_000_000;
            assert(m * 1_000_000_000 <= 0xFFFF_FFFF * 1_000_000_000) by (nonlinear_arith)
                requires 0 <= m < t, t <= 0xFFFF_FFFF;
        }
        (rem * 1_000_000_000 / self.time_scale as u128) as u32
    }
}

} // verus!
