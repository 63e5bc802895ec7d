use vstd::prelude::*;
use crate::event::UiEvent;
use crate::screen::{ScreenState, ScreenView, Violation, step};
use crate::channel::EventChannel;
use crate::scheduler::RedrawScheduler;

verus! {

/// The state after one event, which a violation leaves unchanged.
pub open spec fn after(s: ScreenView, e: UiEvent) -> ScreenView {
    match step(s, e) {
        Ok(v) => v,
        Err(_) => s,
    }
}

/// The state after a sequence of events, applied in order.
pub open spec fn run(s: ScreenView, es: Seq<UiEvent>) -> ScreenView
    decreases es.len(),
{
    if es.len() == 0 {
        s
    } else {
        after(run(s, es.drop_last()), es.last())
    }
}

/// The violations met while applying a sequence of events, in order.
pub open spec fn violations(s: ScreenView, es: Seq<UiEvent>) -> Seq<Violation>
    decreases es.len(),
{
    if es.len() == 0 {
        Seq::empty()
    } else {
        violations(s, es.drop_last()) + match step(run(s, es.drop_last()), es.last()) {
            Ok(_) => Seq::empty(),
            Err(x) => seq![x],
        }
    }
}

pub open spec fn has_flush(es: Seq<UiEvent>) -> bool {
    exists|i: int| 0 <= i < es.len() && #[trigger] es[i] is Flush
}

/// What one wake-up of the GUI loop did.
pub struct Tick {
    /// Whether a paint must be requested from the host loop.
    pub paint: bool,
    pub violations: Vec<Violation>,
}

/// Drains the channel and applies its events in order; each flush marks the
/// screen dirty, and the first one that finds no paint outstanding asks for one.
pub fn process_pending(screen: &mut ScreenState, chan: &mut EventChannel, sched: &mut RedrawScheduler) -> (t: Tick)
    requires
        old(screen)@.wf(),
    ensures
        final(screen)@.wf(),
        final(screen)@ == run(old(screen)@, old(chan).queue@),
        t.violations@ == violations(old(screen)@, old(chan).queue@),
        final(chan).queue@.len() == 0,
        !final(chan).wake_pending,
        final(sched).pending == (old(sched).pending || has_flush(old(chan).queue@)),
        t.paint == (!old(sched).pending && has_flush(old(chan).queue@)),
{
    let ghost s0 = screen@;
    let ghost was_pending = sched.pending;
    let mut events = chan.drain();
    let ghost all = events@;
    let n = events.len();
    let mut i: usize = 0;
    let mut paint = false;
    let mut found: Vec<Violation> = Vec::new();
    assert(all.subrange(0, 0) =~= Seq::<UiEvent>::empty());
    assert(all.subrange(0, all.len() as int) =~= all);
    while i < n
        invariant
            n == all.len(),
            i <= n,
            events@ == all.subrange(i as int, n as int),
            screen@.wf(),
            screen@ == run(s0, all.subrange(0, i as int)),
            found@ == violations(s0, all.subrange(0, i as int)),
            sched.pending == (was_pending || has_flush(all.subrange(0, i as int))),
            paint == (!was_pending && has_flush(all.subrange(0, i as int))),
        decreases n - i,
    {
        let ghost pre = all.subrange(0, i as int);
        let ghost next = all.subrange(0, i + 1);
        assert(next.drop_last() =~= pre);
        assert(next.last() == all[i as int]);
        assert(events@[0] == all[i as int]);
        let e = events.remove(0);
        assert(events@ =~= all.subrange(i + 1, n as int));
        let is_flush = e.is_flush();
        match screen.apply(e) {
            Ok(_) => {
                assert(found@ =~= violations(s0, next));
            },
            Err(x) => {
                found.push(x);
                assert(found@ =~= violations(s0, next));
            },
        }
        if is_flush {
            let w = sched.notify_dirty();
            if w {
                paint = true;
            }
            assert(next[i as int] is Flush);
        } else {
            assert forall|j: int| 0 <= j < next.len() && #[trigger] next[j] is Flush implies pre[j] is Flush by {
                assert(j < i);
            }
        }
        assert(has_flush(pre) ==> has_flush(next)) by {
            if has_flush(pre) {
                let j = choose|j: int| 0 <= j < pre.len() && #[trigger] pre[j] is Flush;
                assert(next[j] is Flush);
            }
        }
        i = i + 1;
    }
    Tick { paint, violations: found }
}

} // verus!
