//! The parent's side of a run as a state machine: from the phase it is in and
//! what the last action came back with, the next phase and action. The driver
//! performs the actions (clone, wait, ptrace, cleanup) and reports back.
use vstd::prelude::*;
use crate::enclosure::{exit_code, exit_code_of, reported_code};

verus! {

/// Where the run stands: the action of each phase is under way.
#[derive(Clone, Copy, Debug, PartialEq, Eq, Structural)]
pub enum Phase {
    /// Preparing the rules' endpoints on the host.
    New,
    /// Cloning the child into new mount and user namespaces.
    RulesPrepared,
    /// Waiting for the child to stop itself.
    ChildCloned,
    /// Writing the child's ID maps.
    ChildStopped,
    /// Tracing the child, or detaching from it.
    IdsMapped,
    /// Waiting for the detached child to exit.
    Detached,
    /// Removing the enclosure root and the created paths.
    Cleaning,
    /// The run is over.
    Done,
}

/// What the last action came back with.
#[derive(Clone, Copy, Debug, PartialEq, Eq, Structural)]
pub enum Event {
    /// It succeeded.
    Succeeded,
    /// It failed.
    Failed,
    /// Detaching found the child already gone (`ESRCH`).
    ChildGone,
    /// The child was reaped with this wait status.
    ChildExited(i32),
}

/// What the driver does next.
#[derive(Clone, Copy, Debug, PartialEq, Eq, Structural)]
pub enum Action {
    CloneChild,
    AwaitStop,
    MapIds,
    StartTracer,
    Detach,
    AwaitExit,
    CleanUp,
    /// End with this exit code.
    Exit(i32),
    /// End with the error of the failed step; nothing to clean up.
    Fail,
    /// End with the error of the failed step, after cleanup.
    FailAfterCleanup,
}

/// The parent's state during a run.
#[derive(Clone, Copy, Debug, PartialEq, Eq, Structural)]
pub struct Lifecycle {
    pub phase: Phase,
    pub trace: bool,
    pub daemon: bool,
    /// A step after rule preparation failed; the run ends in an error.
    pub failed: bool,
    /// The child's wait status, -1 until reaped.
    pub status: i32,
}

/// The state and action after `event` in `s`.
pub open spec fn transition(s: Lifecycle, event: Event) -> (Lifecycle, Action) {
    let fail = Lifecycle { phase: Phase::Cleaning, failed: true, ..s };
    match s.phase {
        Phase::New => match event {
            Event::Succeeded => (Lifecycle { phase: Phase::RulesPrepared, ..s }, Action::CloneChild),
            _ => (Lifecycle { phase: Phase::Done, failed: true, ..s }, Action::Fail),
        },
        Phase::RulesPrepared => match event {
            Event::Succeeded => (Lifecycle { phase: Phase::ChildCloned, ..s }, Action::AwaitStop),
            _ => (fail, Action::CleanUp),
        },
        Phase::ChildCloned => match event {
            Event::Succeeded => (Lifecycle { phase: Phase::ChildStopped, ..s }, Action::MapIds),
            _ => (fail, Action::CleanUp),
        },
        Phase::ChildStopped => match event {
            Event::Succeeded => (
                Lifecycle { phase: Phase::IdsMapped, ..s },
                if s.trace {
                    Action::StartTracer
                } else {
                    Action::Detach
                },
            ),
            _ => (fail, Action::CleanUp),
        },
        Phase::IdsMapped => match event {
            Event::ChildExited(w) => (
                Lifecycle { phase: Phase::Cleaning, status: w, ..s },
                Action::CleanUp,
            ),
            Event::Succeeded => if s.trace {
                (fail, Action::CleanUp)
            } else {
                (Lifecycle { phase: Phase::Detached, ..s }, Action::AwaitExit)
            },
            Event::ChildGone => (Lifecycle { phase: Phase::Cleaning, ..s }, Action::CleanUp),
            Event::Failed => (fail, Action::CleanUp),
        },
        Phase::Detached => match event {
            Event::ChildExited(w) => (
                Lifecycle { phase: Phase::Cleaning, status: w, ..s },
                Action::CleanUp,
            ),
            _ => (fail, Action::CleanUp),
        },
        Phase::Cleaning => (
            Lifecycle { phase: Phase::Done, ..s },
            if s.failed || event == Event::Failed {
                Action::FailAfterCleanup
            } else {
                Action::Exit(reported_code(s.daemon, s.status as int) as i32)
            },
        ),
        Phase::Done => (s, Action::Fail),
    }
}

impl Lifecycle {
    /// A run about to prepare its rules.
    pub fn new(trace: bool, daemon: bool) -> (r: Lifecycle)
        ensures
            r == (Lifecycle { phase: Phase::New, trace, daemon, failed: false, status: -1i32 }),
    {
        Lifecycle { phase: Phase::New, trace, daemon, failed: false, status: -1 }
    }

    /// Takes in what the last action came back with; returns the next action.
    pub fn step(&mut self, event: Event) -> (a: Action)
        ensures
            (*final(self), a) == transition(*old(self), event),
    {
        let s = *self;
        let fail = Lifecycle { phase: Phase::Cleaning, failed: true, ..s };
        let (next, action) = match s.phase {
            Phase::New => match event {
                Event::Succeeded => (Lifecycle { phase: Phase::RulesPrepared, ..s }, Action::CloneChild),
                _ => (Lifecycle { phase: Phase::Done, failed: true, ..s }, Action::Fail),
            },
            Phase::RulesPrepared => match event {
                Event::Succeeded => (Lifecycle { phase: Phase::ChildCloned, ..s }, Action::AwaitStop),
                _ => (fail, Action::CleanUp),
            },
            Phase::ChildCloned => match event {
                Event::Succeeded => (Lifecycle { phase: Phase::ChildStopped, ..s }, Action::MapIds),
                _ => (fail, Action::CleanUp),
            },
            Phase::ChildStopped => match event {
                Event::Succeeded => (
                    Lifecycle { phase: Phase::IdsMapped, ..s },
                    if s.trace {
                        Action::StartTracer
                    } else {
                        Action::Detach
                    },
                ),
                _ => (fail, Action::CleanUp),
            },
            Phase::IdsMapped => match event {
                Event::ChildExited(w) => (
                    Lifecycle { phase: Phase::Cleaning, status: w, ..s },
                    Action::CleanUp,
                ),
                Event::Succeeded => if s.trace {
                    (fail, Action::CleanUp)
                } else {
                    (Lifecycle { phase: Phase::Detached, ..s }, Action::AwaitExit)
                },
                Event::ChildGone => (Lifecycle { phase: Phase::Cleaning, ..s }, Action::CleanUp),
                Event::Failed => (fail, Action::CleanUp),
            },
            Phase::Detached => match event {
                Event::ChildExited(w) => (
                    Lifecycle { phase: Phase::Cleaning, status: w, ..s },
                    Action::CleanUp,
                ),
                _ => (fail, Action::CleanUp),
            },
            Phase::Cleaning => {
                let failed = s.failed || match event {
                    Event::Failed => true,
                    _ => false,
                };
                (
                    Lifecycle { phase: Phase::Done, ..s },
                    if failed {
                        Action::FailAfterCleanup
                    } else if s.daemon {
                        Action::Exit(0)
                    } else {
                        Action::Exit(exit_code(s.status))
                    },
                )
            },
            Phase::Done => (s, Action::Fail),
        };
        *self = next;
        action
    }
}

/// Once the rules are prepared, the run never ends without cleaning up: from
/// every phase after that, each event leads either to cleanup or to another
/// phase short of the end, and the end is reached only from cleanup.
pub proof fn lemma_cleanup_on_every_exit(s: Lifecycle, event: Event)
    requires
        s.phase != Phase::New,
        s.phase != Phase::Done,
    ensures
        transition(s, event).0.phase == Phase::Done ==> s.phase == Phase::Cleaning,
        s.phase != Phase::Cleaning ==> transition(s, event).1 != Action::Fail
            && transition(s, event).1 != Action::FailAfterCleanup
            && !(transition(s, event).1 is Exit),
        transition(s, event).0.phase == Phase::Cleaning ==> transition(s, event).1
            == Action::CleanUp,
{
}

/// The code the run exits with is the child's exit code, except in daemon
/// mode, where it is 0.
pub proof fn lemma_reported_exit_code(s: Lifecycle, event: Event)
    requires
        s.phase == Phase::Cleaning,
        !s.failed,
        event != Event::Failed,
    ensures
        transition(s, event).1 == Action::Exit(
            (if s.daemon {
                0
            } else {
                exit_code_of(s.status as int)
            }) as i32,
        ),
{
}

} // verus!
