use vstd::prelude::*;
use std::time::Instant;

verus! {

#[verifier::external_type_specification]
#[verifier::external_body]
pub struct ExInstant(Instant);

/// Relies on `Instant::now`: the current moment of a clock that never goes
/// back. Nothing is known of its value.
#[verifier::external_body]
fn now() -> (r: Instant) {
    Instant::now()
}

/// Relies on `Instant::elapsed` and `Duration::as_nanos`: the nanoseconds
/// since `start`. Nothing is known of its value.
#[verifier::external_body]
fn nanos_since(start: &Instant) -> (r: u128) {
    start.elapsed().as_nanos()
}

pub const NANOS_PER_SECOND: u128 = 1_000_000_000;

/// A timer that ends once a number of seconds has passed since it was
/// started or last reset.
#[derive(Debug)]
pub struct Timer {
    /// When the timer was started or last reset
    pub start_time: Instant,
    /// How many seconds from the start need to pass before the timer ends
    pub duration: u64,
    pub ended: bool,
}

impl Timer {
    pub fn new(duration: u64) -> (r: Timer)
        ensures
            r.duration == duration,
            !r.ended,
    {
        Timer { start_time: now(), duration, ended: false }
    }

    /// Used to know if the timer has run as long as required
    pub fn ended(&self) -> (r: bool)
        ensures
            r == self.ended,
    {
        self.ended
    }

    /// Ends the timer if `elapsed` nanoseconds reach its duration; an ended
    /// timer stays ended.
    pub fn update_with(&mut self, elapsed: u128)
        ensures
            final(self).duration == old(self).duration,
            final(self).ended == (old(self).ended || elapsed >= old(self).duration as int
                * NANOS_PER_SECOND),
    {
        let needed = self.duration as u128 * NANOS_PER_SECOND;
        if elapsed >= needed {
            self.ended = true;
        }
    }

    /// Determines how much time has passed since the start time; if it is at
    /// least the duration, the timer ends.
    pub fn update(&mut self)
        ensures
            final(self).duration == old(self).duration,
            old(self).ended ==> final(self).ended,
            old(self).duration == 0 ==> final(self).ended,
    {
        let elapsed = nanos_since(&self.start_time);
        self.update_with(elapsed);
    }

    /// Whether the timer has run its duration since it was started or last
    /// reset; if so, it starts again from now.
    pub fn poll(&mut self) -> (r: bool)
        ensures
            final(self).duration == old(self).duration,
            !final(self).ended,
            old(self).ended ==> r,
            old(self).duration == 0 ==> r,
    {
        self.update();
        let r = self.ended;
        if r {
            self.reset();
        }
        r
    }

    /// Starts the timer again from now
    pub fn reset(&mut self)
        ensures
            final(self).duration == old(self).duration,
            !final(self).ended,
    {
        self.start_time = now();
        self.ended = false;
    }
}

} // verus!
