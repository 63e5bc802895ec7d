use vstd::prelude::*;
use crate::event::UiEvent;

verus! {

/// The ordered, unbounded queue of events from the session's context to the
/// GUI loop, with the flag that records an outstanding wake-up.
pub struct EventChannel {
    pub queue: Vec<UiEvent>,
    pub wake_pending: bool,
}

impl EventChannel {
    pub fn new() -> (c: EventChannel)
        ensures
            c.queue@.len() == 0,
            !c.wake_pending,
    {
        EventChannel { queue: Vec::new(), wake_pending: false }
    }

    /// Appends an event; never blocks and never drops. Returns `true` when the
    /// consumer must be woken, that is when no wake-up was outstanding.
    pub fn send(&mut self, e: UiEvent) -> (wake: bool)
        ensures
            final(self).queue@ == old(self).queue@.push(e),
            final(self).wake_pending,
            wake == !old(self).wake_pending,
    {
        self.queue.push(e);
        let wake = !self.wake_pending;
        self.wake_pending = true;
        wake
    }

    /// Takes every queued event, oldest first, and clears the wake-up.
    pub fn drain(&mut self) -> (events: Vec<UiEvent>)
        ensures
            events@ == old(self).queue@,
            final(self).queue@.len() == 0,
            !final(self).wake_pending,
    {
        let mut events: Vec<UiEvent> = Vec::new();
        std::mem::swap(&mut events, &mut self.queue);
        self.wake_pending = false;
        events
    }
}

} // verus!
