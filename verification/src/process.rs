//! Stopping a child process before a deadline: try to see whether it has
//! exited, kill it, and poll until it is gone or the deadline passes.
//!
//! The waits, kills, clock readings and sleeps are the caller's; the
//! decisions are made here, one event at a time.

use vstd::prelude::*;

verus! {

/// How a child process ended.
#[derive(Clone, Copy, Debug, PartialEq, Eq)]
pub struct ExitReport {
    pub success: bool,
    pub code: Option<i32>,
}

/// The outcome of asking, without blocking, whether a child has exited.
pub enum TryWaitOutcome {
    Exited(ExitReport),
    Running,
    Failed(std::io::Error),
}

/// Why stopping or waiting for a child failed.
pub enum ProcessError {
    Io(std::io::Error),
    /// The child was still there when the deadline passed.
    TimedOut,
}

/// What the caller of a termination does next.
pub enum TerminationAction {
    /// Ask without blocking whether the child has exited; report with `on_try_wait`.
    TryWait,
    /// Kill the child; report with `on_kill`.
    Kill,
    /// Read the clock; report with `on_clock` whether the deadline is still ahead.
    CheckClock,
    /// Sleep briefly; report with `on_slept`.
    Sleep,
    /// Termination is over. Where the second field holds an error, a kill
    /// failed after a wait error, and both are worth reporting; where the
    /// third is set, the deadline passed with the child still running.
    Done(Result<(), ProcessError>, Option<std::io::Error>, bool),
}

/// Where a termination stands; a wait error met at the start is kept to be
/// returned in the end.
pub enum TerminationPhase {
    Start,
    KillAfterWaitError(std::io::Error),
    PollAfterWaitError(std::io::Error),
    ProbeAfterWaitError(std::io::Error),
    SleepAfterWaitError(std::io::Error),
    Kill,
    ProbeAfterKillFailure(std::io::Error),
    Poll,
    Probe,
    Sleep,
    Finished,
}

/// Stopping a child before a deadline.
pub struct Termination {
    pub phase: TerminationPhase,
}

pub open spec fn finishes(a: TerminationAction, r: Result<(), ProcessError>) -> bool {
    a matches TerminationAction::Done(x, None, false) && x == r
}

impl Termination {
    /// Begins by asking whether the child has exited already.
    pub fn start() -> (r: (Termination, TerminationAction))
        ensures
            r.0.phase is Start,
            r.1 is TryWait,
    {
        (Termination { phase: TerminationPhase::Start }, TerminationAction::TryWait)
    }

    /// Takes whether the child has exited. A child seen exited ends the
    /// termination: successfully, unless a wait error came first, which is
    /// then returned. A failed wait at the start leads to a kill; a failed
    /// wait later is returned.
    pub fn on_try_wait(self, outcome: TryWaitOutcome) -> (r: (Termination, TerminationAction))
        requires
            self.phase is Start || self.phase is ProbeAfterWaitError || self.phase is ProbeAfterKillFailure || self.phase is Probe,
        ensures
            r.1 matches TerminationAction::Done(Ok(()), _, _) ==> outcome is Exited,
            match (self.phase, outcome) {
                (TerminationPhase::Start, TryWaitOutcome::Exited(_)) => r.0.phase is Finished && finishes(r.1, Ok(())),
                (TerminationPhase::Start, TryWaitOutcome::Running) => r.0.phase is Kill && r.1 is Kill,
                (TerminationPhase::Start, TryWaitOutcome::Failed(e)) => r.0.phase == TerminationPhase::KillAfterWaitError(e) && r.1 is Kill,
                (TerminationPhase::ProbeAfterWaitError(w), TryWaitOutcome::Exited(_)) => r.0.phase is Finished && finishes(r.1, Err(ProcessError::Io(w))),
                (TerminationPhase::ProbeAfterWaitError(w), TryWaitOutcome::Running) => r.0.phase == TerminationPhase::SleepAfterWaitError(w) && r.1 is Sleep,
                (TerminationPhase::ProbeAfterKillFailure(k), TryWaitOutcome::Exited(_)) => r.0.phase is Finished && finishes(r.1, Ok(())),
                (TerminationPhase::ProbeAfterKillFailure(k), TryWaitOutcome::Running) => r.0.phase is Finished && finishes(r.1, Err(ProcessError::Io(k))),
                (TerminationPhase::Probe, TryWaitOutcome::Exited(_)) => r.0.phase is Finished && finishes(r.1, Ok(())),
                (TerminationPhase::Probe, TryWaitOutcome::Running) => r.0.phase is Sleep && r.1 is Sleep,
                (_, TryWaitOutcome::Failed(e)) => r.0.phase is Finished && finishes(r.1, Err(ProcessError::Io(e))),
                _ => false,
            },
    {
        match (self.phase, outcome) {
            (TerminationPhase::Start, TryWaitOutcome::Exited(_)) => (Termination { phase: TerminationPhase::Finished }, TerminationAction::Done(Ok(()), None, false)),
            (TerminationPhase::Start, TryWaitOutcome::Running) => (Termination { phase: TerminationPhase::Kill }, TerminationAction::Kill),
            (TerminationPhase::Start, TryWaitOutcome::Failed(e)) => (Termination { phase: TerminationPhase::KillAfterWaitError(e) }, TerminationAction::Kill),
            (TerminationPhase::ProbeAfterWaitError(w), TryWaitOutcome::Exited(_)) => (Termination { phase: TerminationPhase::Finished }, TerminationAction::Done(Err(ProcessError::Io(w)), None, false)),
            (TerminationPhase::ProbeAfterWaitError(w), TryWaitOutcome::Running) => (Termination { phase: TerminationPhase::SleepAfterWaitError(w) }, TerminationAction::Sleep),
            (TerminationPhase::ProbeAfterKillFailure(_), TryWaitOutcome::Exited(_)) => (Termination { phase: TerminationPhase::Finished }, TerminationAction::Done(Ok(()), None, false)),
            (TerminationPhase::ProbeAfterKillFailure(k), TryWaitOutcome::Running) => (Termination { phase: TerminationPhase::Finished }, TerminationAction::Done(Err(ProcessError::Io(k)), None, false)),
            (TerminationPhase::Probe, TryWaitOutcome::Exited(_)) => (Termination { phase: TerminationPhase::Finished }, TerminationAction::Done(Ok(()), None, false)),
            (TerminationPhase::Probe, TryWaitOutcome::Running) => (Termination { phase: TerminationPhase::Sleep }, TerminationAction::Sleep),
            (_, TryWaitOutcome::Failed(e)) => (Termination { phase: TerminationPhase::Finished }, TerminationAction::Done(Err(ProcessError::Io(e)), None, false)),
            _ => (Termination { phase: TerminationPhase::Finished }, TerminationAction::Done(Ok(()), None, false)),
        }
    }

    /// Takes the outcome of the kill. After a kill, the child is polled
    /// until the deadline; when the kill fails, the child may have exited
    /// meanwhile, which one more wait tells.
    pub fn on_kill(self, outcome: Result<(), std::io::Error>) -> (r: (Termination, TerminationAction))
        requires
            self.phase is Kill || self.phase is KillAfterWaitError,
        ensures
            match (self.phase, outcome) {
                (TerminationPhase::Kill, Ok(())) => r.0.phase is Poll && r.1 is CheckClock,
                (TerminationPhase::Kill, Err(k)) => r.0.phase == TerminationPhase::ProbeAfterKillFailure(k) && r.1 is TryWait,
                (TerminationPhase::KillAfterWaitError(w), Ok(())) => r.0.phase == TerminationPhase::PollAfterWaitError(w) && r.1 is CheckClock,
                (TerminationPhase::KillAfterWaitError(w), Err(k)) => r.0.phase is Finished
                    && r.1 == TerminationAction::Done(Err(ProcessError::Io(w)), Some(k), false),
                _ => false,
            },
    {
        match (self.phase, outcome) {
            (TerminationPhase::Kill, Ok(())) => (Termination { phase: TerminationPhase::Poll }, TerminationAction::CheckClock),
            (TerminationPhase::Kill, Err(k)) => (Termination { phase: TerminationPhase::ProbeAfterKillFailure(k) }, TerminationAction::TryWait),
            (TerminationPhase::KillAfterWaitError(w), Ok(())) => (Termination { phase: TerminationPhase::PollAfterWaitError(w) }, TerminationAction::CheckClock),
            (TerminationPhase::KillAfterWaitError(w), Err(k)) => (Termination { phase: TerminationPhase::Finished }, TerminationAction::Done(Err(ProcessError::Io(w)), Some(k), false)),
            (p, _) => (Termination { phase: p }, TerminationAction::CheckClock),
        }
    }

    /// Takes whether the deadline is still ahead: if so the child is polled
    /// again, else termination fails as timed out.
    pub fn on_clock(self, before_deadline: bool) -> (r: (Termination, TerminationAction))
        requires
            self.phase is Poll || self.phase is PollAfterWaitError,
        ensures
            match self.phase {
                TerminationPhase::Poll => if before_deadline {
                    r.0.phase is Probe && r.1 is TryWait
                } else {
                    r.0.phase is Finished && r.1 == TerminationAction::Done(Err(ProcessError::TimedOut), None, true)
                },
                TerminationPhase::PollAfterWaitError(w) => if before_deadline {
                    r.0.phase == TerminationPhase::ProbeAfterWaitError(w) && r.1 is TryWait
                } else {
                    r.0.phase is Finished && finishes(r.1, Err(ProcessError::TimedOut))
                },
                _ => false,
            },
    {
        match self.phase {
            TerminationPhase::Poll => if before_deadline {
                (Termination { phase: TerminationPhase::Probe }, TerminationAction::TryWait)
            } else {
                (Termination { phase: TerminationPhase::Finished }, TerminationAction::Done(Err(ProcessError::TimedOut), None, true))
            },
            TerminationPhase::PollAfterWaitError(w) => if before_deadline {
                (Termination { phase: TerminationPhase::ProbeAfterWaitError(w) }, TerminationAction::TryWait)
            } else {
                (Termination { phase: TerminationPhase::Finished }, TerminationAction::Done(Err(ProcessError::TimedOut), None, false))
            },
            p => (Termination { phase: p }, TerminationAction::CheckClock),
        }
    }

    /// After a sleep the clock is read again.
    pub fn on_slept(self) -> (r: (Termination, TerminationAction))
        requires
            self.phase is Sleep || self.phase is SleepAfterWaitError,
        ensures
            r.1 is CheckClock,
            match self.phase {
                TerminationPhase::Sleep => r.0.phase is Poll,
                TerminationPhase::SleepAfterWaitError(w) => r.0.phase == TerminationPhase::PollAfterWaitError(w),
                _ => false,
            },
    {
        match self.phase {
            TerminationPhase::Sleep => (Termination { phase: TerminationPhase::Poll }, TerminationAction::CheckClock),
            TerminationPhase::SleepAfterWaitError(w) => (Termination { phase: TerminationPhase::PollAfterWaitError(w) }, TerminationAction::CheckClock),
            p => (Termination { phase: p }, TerminationAction::CheckClock),
        }
    }
}

} // verus!
