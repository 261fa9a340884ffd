//! Millisecond timers, advanced once per frame by the frame's elapsed time.
//!
//! A once timer accumulates elapsed time up to its duration and then stays
//! finished until it is reset; the fire cooldown and the wall-bounce cooldown
//! are of this kind. A repeating timer wraps around its duration and reports
//! the frames on which it wrapped; the invader movement step is of this kind.

use vstd::prelude::*;

verus! {

/// The longest duration a timer may be built with, in milliseconds (one day).
pub const TIMER_DURATION_MAX_MS: u64 = 86_400_000;

/// The largest frame time a timer accepts in one tick, in milliseconds.
pub const TIMER_TICK_MAX_MS: u64 = 1_000_000_000_000;

/// A frame-stepped countdown over whole milliseconds.
#[derive(Clone, Copy, PartialEq, Eq, Structural, Debug)]
pub struct Timer {
    /// Time accumulated since start, last reset or last wrap; at most
    /// `duration_ms`, and strictly below it for a repeating timer.
    pub elapsed_ms: u64,
    /// The period; positive.
    pub duration_ms: u64,
    /// Whether the timer wraps (repeating) or latches (once).
    pub repeating: bool,
    /// Whether the latest tick reached the duration.
    pub just_finished: bool,
}

impl Timer {
    /// Structural bounds every timer keeps.
    pub open spec fn wf(self) -> bool {
        &&& 0 < self.duration_ms <= TIMER_DURATION_MAX_MS
        &&& self.elapsed_ms <= self.duration_ms
        &&& self.repeating ==> self.elapsed_ms < self.duration_ms
    }

    /// The elapsed time after a tick of `dt_ms`.
    pub open spec fn spec_tick_elapsed(self, dt_ms: u64) -> int {
        if self.repeating && self.elapsed_ms + dt_ms >= self.duration_ms {
            (self.elapsed_ms + dt_ms) % (self.duration_ms as int)
        } else if self.elapsed_ms + dt_ms >= self.duration_ms {
            self.duration_ms as int
        } else {
            self.elapsed_ms + dt_ms
        }
    }

    /// Whether a tick of `dt_ms` reaches the duration: for a once timer,
    /// only on the tick that first reaches it; for a repeating timer, on
    /// every tick that wraps.
    pub open spec fn spec_tick_just_finished(self, dt_ms: u64) -> bool {
        if self.repeating {
            self.elapsed_ms + dt_ms >= self.duration_ms
        } else {
            self.elapsed_ms < self.duration_ms && self.elapsed_ms + dt_ms >= self.duration_ms
        }
    }

    /// The whole timer after a tick of `dt_ms`.
    pub open spec fn spec_tick(self, dt_ms: u64) -> Timer {
        Timer {
            elapsed_ms: self.spec_tick_elapsed(dt_ms) as u64,
            just_finished: self.spec_tick_just_finished(dt_ms),
            ..self
        }
    }

    /// Whether the timer has reached its duration and not been reset since.
    /// Meaningful for once timers; a repeating timer never stays there.
    pub open spec fn spec_finished(self) -> bool {
        self.elapsed_ms >= self.duration_ms
    }

    /// A once timer of `duration_ms`, started from zero.
    pub fn new_once(duration_ms: u64) -> (t: Timer)
        requires
            0 < duration_ms <= TIMER_DURATION_MAX_MS,
        ensures
            t == (Timer {
                elapsed_ms: 0u64,
                duration_ms,
                repeating: false,
                just_finished: false,
            }),
            t.wf(),
    {
        Timer { elapsed_ms: 0, duration_ms, repeating: false, just_finished: false }
    }

    /// A repeating timer of `duration_ms`, started from zero.
    pub fn new_repeating(duration_ms: u64) -> (t: Timer)
        requires
            0 < duration_ms <= TIMER_DURATION_MAX_MS,
        ensures
            t == (Timer {
                elapsed_ms: 0u64,
                duration_ms,
                repeating: true,
                just_finished: false,
            }),
            t.wf(),
    {
        Timer { elapsed_ms: 0, duration_ms, repeating: true, just_finished: false }
    }

    /// Advances the timer by one frame's elapsed time.
    pub fn tick(&mut self, dt_ms: u64)
        requires
            old(self).wf(),
            dt_ms <= TIMER_TICK_MAX_MS,
        ensures
            *final(self) == old(self).spec_tick(dt_ms),
            final(self).wf(),
    {
        let total: u64 = self.elapsed_ms + dt_ms;
        if self.repeating {
            if total >= self.duration_ms {
                self.just_finished = true;
                self.elapsed_ms = total % self.duration_ms;
            } else {
                self.just_finished = false;
                self.elapsed_ms = total;
            }
        } else {
            self.just_finished = self.elapsed_ms < self.duration_ms && total >= self.duration_ms;
            if total >= self.duration_ms {
                self.elapsed_ms = self.duration_ms;
            } else {
                self.elapsed_ms = total;
            }
        }
    }

    /// Starts the countdown over from zero.
    pub fn reset(&mut self)
        ensures
            *final(self) == (Timer {
                elapsed_ms: 0u64,
                just_finished: false,
                ..*old(self)
            }),
    {
        self.elapsed_ms = 0;
        self.just_finished = false;
    }

    /// Whether the timer has reached its duration and not been reset since.
    pub fn finished(&self) -> (r: bool)
        ensures
            r == self.spec_finished(),
    {
        self.elapsed_ms >= self.duration_ms
    }
}

} // verus!
