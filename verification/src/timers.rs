//! A model of the browser's interval-timer collaborator.
//!
//! Arming hands out a fresh nonzero handle and records it, with its
//! interval, as armed; disarming forgets a handle and is idempotent and
//! infallible.  The thin binding layer around the engine pairs each handle
//! with a real browser interval; the engine itself only ever decides
//! *when* to arm and disarm, which is what is verified here.

use vstd::prelude::*;

use crate::config::RefreshConfig;
use crate::rr_error::RrError;

verus! {

/// The mathematical state of the timer collaborator: the next fresh
/// handle, and the interval (in seconds) each armed handle was armed with.
pub ghost struct TimersView {
    pub next: int,
    pub armed: Map<i32, u32>,
}

/// Handles are nonzero, and every armed handle was handed out earlier.
pub open spec fn timers_wf(t: TimersView) -> bool {
    &&& 1 <= t.next <= i32::MAX
    &&& forall|h: i32| t.armed.dom().contains(h) ==> 1 <= h < t.next
}

/// What arming does: hand out the next handle and record it, or fail —
/// leaving the state unchanged and yielding the "no timer" handle 0 —
/// when the handle space is exhausted.
pub open spec fn spec_arm(t: TimersView, interval: u32) -> (TimersView, i32) {
    if t.next == i32::MAX {
        (t, 0)
    } else {
        (
            TimersView { next: t.next + 1, armed: t.armed.insert(t.next as i32, interval) },
            t.next as i32,
        )
    }
}

/// The timer collaborator's state.
pub struct WindowTimers {
    next_id: i32,
    armed: Ghost<Map<i32, u32>>,
}

impl View for WindowTimers {
    type V = TimersView;

    closed spec fn view(&self) -> TimersView {
        TimersView { next: self.next_id as int, armed: self.armed@ }
    }
}

impl WindowTimers {
    pub fn new() -> (t: WindowTimers)
        ensures
            t@ == (TimersView { next: 1int, armed: Map::<i32, u32>::empty() }),
            timers_wf(t@),
    {
        WindowTimers { next_id: 1, armed: Ghost(Map::empty()) }
    }
}

/// Arm a recurring timer firing every `duration_secs` seconds with `cfg`
/// as its payload, and return its handle.  The handle is fresh and
/// nonzero; arming fails only when the handle space is exhausted, and
/// then changes nothing.
pub fn create_window_timer(timers: &mut WindowTimers, duration_secs: u32, cfg: &RefreshConfig) -> (r:
    Result<i32, RrError>)
    requires
        timers_wf(old(timers)@),
    ensures
        timers_wf(final(timers)@),
        r is Ok <==> old(timers)@.next < i32::MAX,
        r matches Ok(h) ==> {
            &&& h == spec_arm(old(timers)@, duration_secs).1
            &&& h != 0
            &&& !old(timers)@.armed.dom().contains(h)
            &&& final(timers)@ == spec_arm(old(timers)@, duration_secs).0
        },
        r is Err ==> final(timers)@ == old(timers)@,
{
    let _ = cfg;
    if timers.next_id == i32::MAX {
        Err(RrError::new("timer handles exhausted"))
    } else {
        let h = timers.next_id;
        timers.next_id = timers.next_id + 1;
        let ghost recorded = timers.armed@.insert(h, duration_secs);
        timers.armed = Ghost(recorded);
        proof {
            assert forall|x: i32| timers@.armed.dom().contains(x) implies 1 <= x < timers@.next by {
                if x != h {
                    assert(old(timers)@.armed.dom().contains(x));
                }
            }
        }
        Ok(h)
    }
}

/// Disarm the timer behind `timer_id`.  Idempotent and infallible: a
/// handle that is not armed is simply forgotten again.
pub fn remove_window_timer(timers: &mut WindowTimers, timer_id: i32)
    ensures
        final(timers)@ == (TimersView {
            next: old(timers)@.next,
            armed: old(timers)@.armed.remove(timer_id),
        }),
        timers_wf(old(timers)@) ==> timers_wf(final(timers)@),
{
    let ghost recorded = timers.armed@.remove(timer_id);
    timers.armed = Ghost(recorded);
}

} // verus!
