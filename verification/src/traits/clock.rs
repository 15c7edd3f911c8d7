//! The time source.
use std::sync::Arc;
use vstd::prelude::*;

use crate::types::time::Instant;

verus! {

/// Time abstraction, so that tests can control time.
///
/// Nothing is promised of what a reading gives: every function that takes one says what it
/// does with whatever the clock says.
pub trait Clock: Send + Sync {
    /// A reading of the monotonic clock.
    fn now(&self) -> Instant;

    /// Wall-clock Unix milliseconds.
    fn unix_ms(&self) -> i64;
}

/// What a clock may say.
pub struct Readings {
    /// It may give this instant for a reading of the monotonic clock.
    pub now: spec_fn(Instant) -> bool,
    /// It may give this wall-clock time.
    pub unix_ms: spec_fn(i64) -> bool,
}

impl Readings {
    /// The clock may give these three readings.
    pub open spec fn may_say(self, unix_ms: i64, now: Instant, recorded_ms: i64) -> bool {
        (self.unix_ms)(unix_ms) && (self.now)(now) && (self.unix_ms)(recorded_ms)
    }
}

/// What `clock` may say: what its own methods ensure of their results.
pub open spec fn readings<C: Clock>(clock: C) -> Readings {
    Readings {
        now: |now: Instant| call_ensures(C::now, (&clock,), now),
        unix_ms: |unix_ms: i64| call_ensures(C::unix_ms, (&clock,), unix_ms),
    }
}

impl<T: Clock> Clock for Arc<T> {
    /// A reading of the shared clock.
    fn now(&self) -> (i: Instant)
        ensures
            call_ensures(T::now, (&**self,), i),
    {
        (**self).now()
    }

    /// A reading of the shared clock.
    fn unix_ms(&self) -> (ms: i64)
        ensures
            call_ensures(T::unix_ms, (&**self,), ms),
    {
        (**self).unix_ms()
    }
}

} // verus!
