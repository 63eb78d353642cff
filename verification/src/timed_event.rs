//! An event that waits before it is handled again.
use std::time::Duration;
use vstd::prelude::*;

verus! {

/// An event, and how long it waits.
pub struct TimedEvent<E> {
    pub event: E,
    pub wait_duration: Duration,
}

impl<E> TimedEvent<E> {
    /// An event that waits for the given time.
    pub fn new(event: E, wait_duration: Duration) -> (timed: Self)
        ensures
            timed.event == event,
            timed.wait_duration == wait_duration,
    {
        TimedEvent { event, wait_duration }
    }

    /// How long the event waits.
    pub fn wait_duration(&self) -> (wait_duration: Duration)
        ensures
            wait_duration == self.wait_duration,
    {
        self.wait_duration
    }

    /// The event.
    pub fn event(&self) -> (event: &E)
        ensures
            *event == self.event,
    {
        &self.event
    }
}

} // verus!
