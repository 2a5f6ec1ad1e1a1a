//! Reaping every descendant: the decisions of the subreaper's wait loop.
use vstd::prelude::*;

verus! {

/// What one call of `wait` came back with.
#[derive(Clone, Copy, Debug, PartialEq, Eq, Structural)]
pub enum WaitEvent {
    /// A descendant `pid` was reaped with `wstatus`.
    Reaped { pid: i32, wstatus: i32 },
    /// There is no descendant left (`ECHILD`).
    NoChildren,
    /// `wait` failed otherwise.
    Failed,
}

/// What the loop does next.
#[derive(Clone, Copy, Debug, PartialEq, Eq, Structural)]
pub enum WaitDecision {
    /// Call `wait` again.
    Continue,
    /// Every descendant is reaped; the primary child's status.
    Finished(i32),
    /// Stop on an unexpected failure; the status known so far.
    Abandon(i32),
}

/// The loop's memory: the primary child and its status once reaped.
#[derive(Clone, Copy, Debug, PartialEq, Eq, Structural)]
pub struct WaitLoop {
    pub primary: i32,
    /// The primary child's wait status, negative until it is reaped.
    pub status: i32,
}

/// The status after an event.
pub open spec fn status_after(state: WaitLoop, event: WaitEvent) -> i32 {
    match event {
        WaitEvent::Reaped { pid, wstatus } => if pid == state.primary {
            wstatus
        } else {
            state.status
        },
        _ => state.status,
    }
}

/// The decision after an event: finish once no descendant is left and the
/// primary status is known, give up on another failure, else go on.
pub open spec fn decision_after(state: WaitLoop, event: WaitEvent) -> WaitDecision {
    match event {
        WaitEvent::Failed => WaitDecision::Abandon(state.status),
        WaitEvent::NoChildren => if state.status >= 0 {
            WaitDecision::Finished(state.status)
        } else {
            WaitDecision::Continue
        },
        WaitEvent::Reaped { .. } => WaitDecision::Continue,
    }
}

impl WaitLoop {
    /// A loop waiting for `primary`, whose status is not known yet.
    pub fn new(primary: i32) -> (r: WaitLoop)
        ensures
            r.primary == primary,
            r.status == -1,
    {
        WaitLoop { primary, status: -1 }
    }

    /// Takes in one result of `wait`.
    pub fn step(&mut self, event: WaitEvent) -> (d: WaitDecision)
        ensures
            final(self).primary == old(self).primary,
            final(self).status == status_after(*old(self), event),
            d == decision_after(*old(self), event),
    {
        match event {
            WaitEvent::Failed => WaitDecision::Abandon(self.status),
            WaitEvent::NoChildren => {
                if self.status >= 0 {
                    WaitDecision::Finished(self.status)
                } else {
                    WaitDecision::Continue
                }
            },
            WaitEvent::Reaped { pid, wstatus } => {
                if pid == self.primary {
                    self.status = wstatus;
                }
                WaitDecision::Continue
            },
        }
    }
}

/// The status a finished loop reports is the one the primary child was
/// reaped with: once recorded, reaping other descendants leaves it alone.
pub proof fn lemma_primary_status_kept(state: WaitLoop, pid: i32, wstatus: i32)
    requires
        pid != state.primary,
    ensures
        status_after(state, WaitEvent::Reaped { pid, wstatus }) == state.status,
        status_after(state, WaitEvent::Reaped { pid: state.primary, wstatus }) == wstatus,
        state.status >= 0 ==> decision_after(state, WaitEvent::NoChildren)
            == WaitDecision::Finished(state.status),
{
}

} // verus!
