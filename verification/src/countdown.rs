//! Per-agent countdown state machine and the fixed-interval clock that
//! drives it.
//!
//! Each production-capable agent owns an independent [`Countdown`]. On every
//! clock pulse the countdown decrements by one; when it reaches zero it emits
//! a production event (the accumulated count rises by one) and immediately
//! resets to its full value. The [`Clock`] accumulates elapsed time and fires
//! one pulse each time the configured interval has elapsed, carrying the
//! remainder forward so no time is lost.

use vstd::prelude::*;

use crate::KernelError;

verus! {

/// Countdown state of one production-capable agent.
///
/// `ticks_remaining` always lies in `[1, total_ticks]` between pulses: a
/// pulse that would bring it to zero instead fires a production event and
/// resets it to `total_ticks`.
#[derive(Clone, Copy, Debug, PartialEq, Eq, Structural)]
pub struct Countdown {
    pub total_ticks: u32,
    pub ticks_remaining: u32,
    pub count: u64,
}

impl Countdown {
    /// Well-formedness: the countdown sits strictly between a completed
    /// pulse and the full value.
    pub open spec fn wf(&self) -> bool {
        1 <= self.ticks_remaining <= self.total_ticks
    }

    /// A fresh countdown: full ticks remaining, nothing produced yet.
    /// A zero `total_ticks` is malformed and rejected here, never mid-tick.
    pub fn new(total_ticks: u32) -> (r: Result<Countdown, KernelError>)
        ensures
            r is Ok <==> total_ticks >= 1,
            r matches Ok(c) ==> c == (Countdown {
                total_ticks,
                ticks_remaining: total_ticks,
                count: 0,
            }),
            r matches Err(e) ==> e == KernelError::InvalidConfig,
    {
        if total_ticks == 0 {
            Err(KernelError::InvalidConfig)
        } else {
            Ok(Countdown { total_ticks, ticks_remaining: total_ticks, count: 0 })
        }
    }

    /// A countdown resumed part-way through a cycle. Rejected unless
    /// `ticks_remaining` lies in `[1, total_ticks]`.
    pub fn new_with_ticks(total_ticks: u32, ticks_remaining: u32) -> (r: Result<
        Countdown,
        KernelError,
    >)
        ensures
            r is Ok <==> 1 <= ticks_remaining <= total_ticks,
            r matches Ok(c) ==> c == (Countdown { total_ticks, ticks_remaining, count: 0 }),
            r matches Err(e) ==> e == KernelError::InvalidConfig,
    {
        if ticks_remaining == 0 || ticks_remaining > total_ticks {
            Err(KernelError::InvalidConfig)
        } else {
            Ok(Countdown { total_ticks, ticks_remaining, count: 0 })
        }
    }

    /// One clock pulse: decrement; on reaching zero, produce and reset.
    pub fn pulse(&mut self) -> (fired: bool)
        requires
            old(self).wf(),
            old(self).count < u64::MAX,
        ensures
            *final(self) == pulse_spec(*old(self)),
            final(self).wf(),
            fired == (old(self).ticks_remaining == 1),
    {
        if self.ticks_remaining == 1 {
            self.ticks_remaining = self.total_ticks;
            self.count = self.count + 1;
            true
        } else {
            self.ticks_remaining = self.ticks_remaining - 1;
            false
        }
    }
}

/// What one pulse does to a countdown: the decrement that would reach zero
/// instead produces one event and resets to the full value.
pub open spec fn pulse_spec(c: Countdown) -> Countdown {
    if c.ticks_remaining == 1 {
        Countdown { total_ticks: c.total_ticks, ticks_remaining: c.total_ticks, count: (c.count + 1) as u64 }
    } else {
        Countdown {
            total_ticks: c.total_ticks,
            ticks_remaining: (c.ticks_remaining - 1) as u32,
            count: c.count,
        }
    }
}

/// The countdown after `n` consecutive pulses.
pub open spec fn after_pulses(c: Countdown, n: nat) -> Countdown
    decreases n,
{
    if n == 0 {
        c
    } else {
        pulse_spec(after_pulses(c, (n - 1) as nat))
    }
}

/// While fewer pulses than `total_ticks` have arrived, the countdown merely
/// counts down: after `n` pulses from the full state, `ticks_remaining` is
/// `total_ticks - n` and nothing has been produced.
proof fn lemma_counting_phase(c: Countdown, n: nat)
    requires
        c.wf(),
        c.ticks_remaining == c.total_ticks,
        n < c.total_ticks,
    ensures
        after_pulses(c, n) == (Countdown {
            total_ticks: c.total_ticks,
            ticks_remaining: (c.total_ticks - n) as u32,
            count: c.count,
        }),
    decreases n,
{
    if n > 0 {
        lemma_counting_phase(c, (n - 1) as nat);
    } else {
        assert(after_pulses(c, 0) == c);
    }
}

/// One full cycle of the countdown machine: after exactly `total_ticks`
/// pulses from the initial (full) state, the accumulated count has risen by
/// exactly one and `ticks_remaining` is back at `total_ticks`.
pub proof fn lemma_countdown_cycle(c: Countdown)
    requires
        c.wf(),
        c.ticks_remaining == c.total_ticks,
        c.count < u64::MAX,
    ensures
        after_pulses(c, c.total_ticks as nat) == (Countdown {
            total_ticks: c.total_ticks,
            ticks_remaining: c.total_ticks,
            count: (c.count + 1) as u64,
        }),
{
    lemma_counting_phase(c, (c.total_ticks - 1) as nat);
}

/// The fixed-interval clock that gates countdown pulses.
///
/// Time is measured in integer time units (for instance microseconds). The
/// clock accumulates the elapsed time handed to it each simulation tick and
/// fires one pulse whenever the accumulated time reaches the interval,
/// keeping the remainder. At most one pulse fires per check, an accepted
/// approximation when a single tick spans several intervals.
#[derive(Clone, Copy, Debug, PartialEq, Eq, Structural)]
pub struct Clock {
    pub interval: u64,
    pub accumulated: u64,
}

impl Clock {
    /// A clock that fires every `interval` time units, starting from zero
    /// accumulated time. A zero interval is malformed and rejected here.
    pub fn new(interval: u64) -> (r: Result<Clock, KernelError>)
        ensures
            r is Ok <==> interval >= 1,
            r matches Ok(c) ==> c == (Clock { interval, accumulated: 0 }),
            r matches Err(e) ==> e == KernelError::InvalidConfig,
    {
        if interval == 0 {
            Err(KernelError::InvalidConfig)
        } else {
            Ok(Clock { interval, accumulated: 0 })
        }
    }

    /// Advance the clock by `delta` elapsed time units. Returns whether a
    /// pulse fires; the remainder beyond one interval is carried forward.
    pub fn tick(&mut self, delta: u64) -> (pulse: bool)
        requires
            old(self).accumulated + delta <= u64::MAX,
        ensures
            final(self).interval == old(self).interval,
            pulse == (old(self).accumulated + delta >= old(self).interval),
            pulse ==> final(self).accumulated == old(self).accumulated + delta - old(
                self,
            ).interval,
            !pulse ==> final(self).accumulated == old(self).accumulated + delta,
    {
        self.accumulated = self.accumulated + delta;
        if self.accumulated >= self.interval {
            self.accumulated = self.accumulated - self.interval;
            true
        } else {
            false
        }
    }
}

} // verus!
