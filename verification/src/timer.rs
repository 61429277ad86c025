//! A timer that reports how long it ran.

use std::time::{Duration, Instant};
use vstd::prelude::*;

verus! {

/// A point in time of the monotonic clock.
#[verifier::external_type_specification]
#[verifier::external_body]
pub struct ExInstant(std::time::Instant);

/// Reads the clock with `Instant::now`. Nothing is claimed of the result.
#[verifier::external_body]
fn now() -> Instant {
    Instant::now()
}

/// Calls `Instant::elapsed`. Nothing is claimed of the result.
#[verifier::external_body]
fn elapsed_since(start: &Instant) -> Duration {
    start.elapsed()
}

/// Measures the time from its creation to the moment it is finished, and
/// hands that time to a callback. Finishing is explicit, so that the report
/// is made on every path that asks for it and on no other.
pub struct Timer<F: Fn(Duration)> {
    start: Instant,
    f: F,
}

impl<F: Fn(Duration)> Timer<F> {
    /// Starts a timer that will report to `f`.
    pub fn new(f: F) -> (timer: Self)
        requires
            forall|d: Duration| f.requires((d,)),
        ensures
            timer.callback() == f,
    {
        Timer { start: now(), f }
    }

    /// Stops the timer and hands the time since its creation to the
    /// callback, once.
    pub fn finish(self)
        ensures
            exists|elapsed: Duration| #[trigger] self.callback().ensures((elapsed,), ()),
    {
        let elapsed = elapsed_since(&self.start);
        self.report(elapsed);
        assert(self.callback().ensures((elapsed,), ()));
    }

    /// Stops the timer and hands `elapsed` to the callback, once.
    pub fn report(self, elapsed: Duration)
        ensures
            self.callback().ensures((elapsed,), ()),
    {
        proof {
            use_type_invariant(&self);
        }
        (self.f)(elapsed);
    }

    /// The callback that the timer reports to.
    pub closed spec fn callback(self) -> F {
        self.f
    }

    #[verifier::type_invariant]
    spec fn accepts_any_duration(self) -> bool {
        forall|d: Duration| self.f.requires((d,))
    }
}

} // verus!
