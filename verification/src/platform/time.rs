//! A timer over the monotonic clock.

use std::time::{Duration, Instant};
use vstd::prelude::*;

verus! {

/// `std::time::Instant`, carried through as an opaque value.
#[verifier::external_type_specification]
#[verifier::external_body]
pub struct ExInstant(std::time::Instant);

/// `std::time::Instant::now`: the current reading of the monotonic clock.
/// Nothing is claimed of it.
pub assume_specification[ std::time::Instant::now ]() -> (now: Instant)
;

/// `std::time::Instant::elapsed`: the time that has passed since the
/// instant was read. Nothing is claimed of it.
pub assume_specification[ std::time::Instant::elapsed ](start: &Instant) -> (passed: Duration)
;

/// A timer: it remembers when it was started.
#[derive(Debug)]
pub struct Timer {
    start: Instant,
}

impl View for Timer {
    type V = Instant;

    /// The instant the timer counts from.
    closed spec fn view(&self) -> Instant {
        self.start
    }
}

impl Timer {
    /// A timer that counts from `start`.
    pub fn starting_at(start: Instant) -> (timer: Self)
        ensures
            timer@ == start,
    {
        Timer { start }
    }

    /// Makes the timer count from `now`.
    pub fn restart_at(&mut self, now: Instant)
        ensures
            final(self)@ == now,
    {
        self.start = now;
    }

    /// Creates a timer that counts from the clock's current reading.
    pub fn new() -> Self {
        Timer::starting_at(Instant::now())
    }

    /// The time that has passed since the timer was started or last reset.
    pub fn elapsed(&self) -> Duration {
        self.start.elapsed()
    }

    /// Makes the timer count from the clock's current reading.
    pub fn reset(&mut self) {
        self.restart_at(Instant::now());
    }
}

impl Clone for Timer {
    fn clone(&self) -> (timer: Self)
        ensures
            timer@ == self@,
    {
        Timer { start: self.start }
    }
}

impl Default for Timer {
    fn default() -> Self {
        Timer::new()
    }
}

} // verus!
