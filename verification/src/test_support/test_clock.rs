//! A clock that tests move by hand.
use std::sync::atomic::AtomicU64;
use vstd::prelude::*;

use crate::traits::clock::Clock;
use crate::types::time::{Duration, Instant};

verus! {

/// A clock that stands still until it is advanced. It is shared by reference: whoever holds it
/// sees it advance.
#[derive(Debug)]
pub struct TestClock {
    base_unix_ms: i64,
    elapsed_nanos: AtomicU64,
}

/// The wall-clock time `elapsed_nanos` after `base_unix_ms`; the latest representable time once
/// that is reached.
pub open spec fn unix_ms_after(base_unix_ms: i64, elapsed_nanos: u64) -> int {
    let ms = base_unix_ms + elapsed_nanos / 1_000_000;
    if ms > i64::MAX {
        i64::MAX as int
    } else {
        ms
    }
}

impl TestClock {
    /// The wall-clock time at which the clock started.
    pub closed spec fn base(&self) -> i64 {
        self.base_unix_ms
    }

    /// A reading of the clock's counter may give `elapsed_nanos` since the start.
    pub closed spec fn shows(&self, elapsed_nanos: u64) -> bool {
        call_ensures(
            AtomicU64::load,
            (&self.elapsed_nanos, std::sync::atomic::Ordering::SeqCst),
            elapsed_nanos,
        )
    }

    /// `nanos` have been added to the clock's counter.
    pub closed spec fn moved(&self, nanos: u64) -> bool {
        exists|before: u64| #[trigger]
            call_ensures(
                AtomicU64::fetch_add,
                (&self.elapsed_nanos, nanos, std::sync::atomic::Ordering::SeqCst),
                before,
            )
    }

    /// A clock whose wall-clock time starts at `unix_ms`.
    pub fn with_base_unix_ms(unix_ms: i64) -> (clock: Self)
        ensures
            clock.base() == unix_ms,
    {
        TestClock { base_unix_ms: unix_ms, elapsed_nanos: AtomicU64::new(0) }
    }

    /// Moves the clock forward.
    pub fn advance(&self, by: Duration)
        requires
            by.nanos <= u64::MAX,
        ensures
            exists|nanos: u64| nanos == by.nanos && #[trigger] self.moved(nanos),
    {
        let nanos = whole_nanos(by);
        self.elapsed_nanos.fetch_add(nanos, std::sync::atomic::Ordering::SeqCst);
        assert(self.moved(nanos));
    }

    /// The wall-clock time `elapsed_nanos` after the start.
    pub fn unix_ms_at(&self, elapsed_nanos: u64) -> (ms: i64)
        ensures
            ms == unix_ms_after(self.base(), elapsed_nanos),
    {
        let elapsed_ms = (elapsed_nanos / 1_000_000) as i64;
        if self.base_unix_ms > 0 && elapsed_ms > i64::MAX - self.base_unix_ms {
            i64::MAX
        } else {
            self.base_unix_ms + elapsed_ms
        }
    }
}

impl Clock for TestClock {
    /// The instant that is as far from the origin as the counter shows.
    fn now(&self) -> (i: Instant)
        ensures
            exists|elapsed: u64| #[trigger] self.shows(elapsed) && i.nanos == elapsed,
    {
        let elapsed = self.elapsed_nanos.load(std::sync::atomic::Ordering::SeqCst);
        assert(self.shows(elapsed));
        nanos_instant(elapsed)
    }

    /// The wall-clock time that is as far from the start as the counter shows.
    fn unix_ms(&self) -> (ms: i64)
        ensures
            exists|elapsed: u64| #[trigger]
                self.shows(elapsed) && ms == unix_ms_after(self.base(), elapsed),
    {
        let elapsed = self.elapsed_nanos.load(std::sync::atomic::Ordering::SeqCst);
        assert(self.shows(elapsed));
        self.unix_ms_at(elapsed)
    }
}

/// The nanoseconds of a span that 64 bits can count.
fn whole_nanos(d: Duration) -> (nanos: u64)
    requires
        d.nanos <= u64::MAX,
    ensures
        nanos == d.nanos,
{
    d.nanos as u64
}

/// The instant `nanos` after the origin of the clock.
fn nanos_instant(nanos: u64) -> (i: Instant)
    ensures
        i.nanos == nanos,
{
    Instant { nanos: nanos as u128 }
}

/// The wall clock goes on by one millisecond for each million nanoseconds, from its start, up to
/// the latest representable time.
pub proof fn wall_clock_counts_milliseconds(base_unix_ms: i64, ms: u64, rest: u64)
    requires
        rest < 1_000_000,
        ms * 1_000_000 + rest <= u64::MAX,
    ensures
        base_unix_ms + ms <= i64::MAX ==> unix_ms_after(
            base_unix_ms,
            (ms * 1_000_000 + rest) as u64,
        ) == base_unix_ms + ms,
        base_unix_ms + ms > i64::MAX ==> unix_ms_after(
            base_unix_ms,
            (ms * 1_000_000 + rest) as u64,
        ) == i64::MAX,
{
}

} // verus!
