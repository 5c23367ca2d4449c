//! Clock abstraction so timing can be injected on `no_std` targets.

use vstd::prelude::*;

verus! {

/// A clock: the current time in platform-specific ticks or microseconds.
pub trait RuntimeClock {
    fn now_ticks() -> u64;
}

/// A clock for environments without a timer: always 0.
pub struct DummyClock;

impl RuntimeClock for DummyClock {
    fn now_ticks() -> (t: u64)
        ensures
            t == 0,
    {
        0
    }
}

} // verus!
