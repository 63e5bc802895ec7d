use vstd::prelude::*;

verus! {

/// Coalesces repaint requests: at most one paint is outstanding at a time.
pub struct RedrawScheduler {
    pub pending: bool,
}

impl RedrawScheduler {
    pub fn new() -> (r: RedrawScheduler)
        ensures
            !r.pending,
    {
        RedrawScheduler { pending: false }
    }

    /// Marks the screen dirty. Returns `true` when the caller must ask the host
    /// loop for a paint, that is when none was outstanding.
    pub fn notify_dirty(&mut self) -> (schedule: bool)
        ensures
            schedule == !old(self).pending,
            final(self).pending,
    {
        let schedule = !self.pending;
        self.pending = true;
        schedule
    }

    /// Runs at paint time: returns whether a paint was outstanding and clears it.
    pub fn take_pending(&mut self) -> (paint: bool)
        ensures
            paint == old(self).pending,
            !final(self).pending,
    {
        let paint = self.pending;
        self.pending = false;
        paint
    }
}

} // verus!
