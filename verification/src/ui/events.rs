//! How often the interface wakes up when nothing is pressed.

use vstd::prelude::*;
use std::time::Duration;

verus! {

/// Waits for a key, or for the next tick.
pub struct EventHandler {
    tick_rate: Duration,
}

impl EventHandler {
    /// How long to wait for a key before ticking anyway.
    pub closed spec fn waits(&self) -> Duration {
        self.tick_rate
    }

    pub fn new(tick_rate: Duration) -> (handler: Self)
        ensures
            handler.waits() == tick_rate,
    {
        EventHandler { tick_rate }
    }

    /// How long to wait for a key before ticking anyway.
    pub fn tick_rate(&self) -> (rate: Duration)
        ensures
            rate == self.waits(),
    {
        self.tick_rate
    }
}

} // verus!
