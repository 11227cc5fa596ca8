//! Waiting for a child process with a deadline, and stopping it when it
//! fails or overstays: the caller performs each action on the child and
//! reports the outcome; the decisions are made here.

use vstd::prelude::*;
use crate::process::{ExitReport, ProcessError, TryWaitOutcome};

verus! {

/// How a watched process ended.
#[derive(Clone, Copy, Debug, PartialEq, Eq)]
pub enum ProcessOutcome {
    Exited(ExitReport),
    TimedOut,
}

impl ProcessOutcome {
    /// Exited, and successfully.
    pub fn success(&self) -> (r: bool)
        ensures
            r == (*self matches ProcessOutcome::Exited(e) && e.success),
    {
        match self {
            ProcessOutcome::Exited(e) => e.success,
            ProcessOutcome::TimedOut => false,
        }
    }
}

/// What the caller of a stop does next.
pub enum StopAction {
    /// Ask without blocking whether the child has exited; report with `on_try_wait`.
    TryWait,
    /// Kill the child; report with `on_kill`.
    Kill,
    /// Wait, blocking, for the child to exit; report with `on_wait`.
    Wait,
    /// Stopping is over. Where the second field holds an error, a kill
    /// failed after a wait error, and both are worth reporting.
    Done(Result<(), std::io::Error>, Option<std::io::Error>),
}

pub enum StopPhase {
    Start,
    Kill,
    KillAfterWaitError(std::io::Error),
    Reap,
    ReapAfterWaitError(std::io::Error),
    ProbeAfterKillFailure(std::io::Error),
    Finished,
}

/// Stopping a child without a deadline: unless it has exited, kill it and
/// reap it.
pub struct Stop {
    pub phase: StopPhase,
}

impl Stop {
    pub fn start() -> (r: (Stop, StopAction))
        ensures
            r.0.phase is Start,
            r.1 is TryWait,
    {
        (Stop { phase: StopPhase::Start }, StopAction::TryWait)
    }

    /// Takes whether the child has exited.
    pub fn on_try_wait(self, outcome: TryWaitOutcome) -> (r: (Stop, StopAction))
        requires
            self.phase is Start || self.phase is ProbeAfterKillFailure,
        ensures
            r.1 matches StopAction::Done(Ok(()), _) ==> outcome is Exited,
            match (self.phase, outcome) {
                (StopPhase::Start, TryWaitOutcome::Exited(_)) => r.0.phase is Finished && r.1 == StopAction::Done(Ok(()), None),
                (StopPhase::Start, TryWaitOutcome::Running) => r.0.phase is Kill && r.1 is Kill,
                (StopPhase::Start, TryWaitOutcome::Failed(e)) => r.0.phase == StopPhase::KillAfterWaitError(e) && r.1 is Kill,
                (StopPhase::ProbeAfterKillFailure(k), TryWaitOutcome::Exited(_)) => r.0.phase is Finished && r.1 == StopAction::Done(Ok(()), None),
                (StopPhase::ProbeAfterKillFailure(k), TryWaitOutcome::Running) => r.0.phase is Finished && r.1 == StopAction::Done(Err(k), None),
                (StopPhase::ProbeAfterKillFailure(k), TryWaitOutcome::Failed(e)) => r.0.phase is Finished && r.1 == StopAction::Done(Err(e), None),
                _ => false,
            },
    {
        match (self.phase, outcome) {
            (StopPhase::Start, TryWaitOutcome::Exited(_)) => (Stop { phase: StopPhase::Finished }, StopAction::Done(Ok(()), None)),
            (StopPhase::Start, TryWaitOutcome::Running) => (Stop { phase: StopPhase::Kill }, StopAction::Kill),
            (StopPhase::Start, TryWaitOutcome::Failed(e)) => (Stop { phase: StopPhase::KillAfterWaitError(e) }, StopAction::Kill),
            (StopPhase::ProbeAfterKillFailure(_), TryWaitOutcome::Exited(_)) => (Stop { phase: StopPhase::Finished }, StopAction::Done(Ok(()), None)),
            (StopPhase::ProbeAfterKillFailure(k), TryWaitOutcome::Running) => (Stop { phase: StopPhase::Finished }, StopAction::Done(Err(k), None)),
            (StopPhase::ProbeAfterKillFailure(_), TryWaitOutcome::Failed(e)) => (Stop { phase: StopPhase::Finished }, StopAction::Done(Err(e), None)),
            (p, _) => (Stop { phase: p }, StopAction::TryWait),
        }
    }

    /// Takes the outcome of the kill.
    pub fn on_kill(self, outcome: Result<(), std::io::Error>) -> (r: (Stop, StopAction))
        requires
            self.phase is Kill || self.phase is KillAfterWaitError,
        ensures
            match (self.phase, outcome) {
                (StopPhase::Kill, Ok(())) => r.0.phase is Reap && r.1 is Wait,
                (StopPhase::Kill, Err(k)) => r.0.phase == StopPhase::ProbeAfterKillFailure(k) && r.1 is TryWait,
                (StopPhase::KillAfterWaitError(w), Ok(())) => r.0.phase == StopPhase::ReapAfterWaitError(w) && r.1 is Wait,
                (StopPhase::KillAfterWaitError(w), Err(k)) => r.0.phase is Finished && r.1 == StopAction::Done(Err(w), Some(k)),
                _ => false,
            },
    {
        match (self.phase, outcome) {
            (StopPhase::Kill, Ok(())) => (Stop { phase: StopPhase::Reap }, StopAction::Wait),
            (StopPhase::Kill, Err(k)) => (Stop { phase: StopPhase::ProbeAfterKillFailure(k) }, StopAction::TryWait),
            (StopPhase::KillAfterWaitError(w), Ok(())) => (Stop { phase: StopPhase::ReapAfterWaitError(w) }, StopAction::Wait),
            (StopPhase::KillAfterWaitError(w), Err(k)) => (Stop { phase: StopPhase::Finished }, StopAction::Done(Err(w), Some(k))),
            (p, _) => (Stop { phase: p }, StopAction::Wait),
        }
    }

    /// Takes the outcome of reaping the killed child; an earlier wait error
    /// is then returned.
    pub fn on_wait(self, outcome: Result<(), std::io::Error>) -> (r: (Stop, StopAction))
        requires
            self.phase is Reap || self.phase is ReapAfterWaitError,
        ensures
            r.0.phase is Finished,
            match (self.phase, outcome) {
                (StopPhase::Reap, Ok(())) => r.1 == StopAction::Done(Ok(()), None),
                (StopPhase::ReapAfterWaitError(w), Ok(())) => r.1 == StopAction::Done(Err(w), None),
                (_, Err(e)) => r.1 == StopAction::Done(Err(e), None),
                _ => false,
            },
    {
        match (self.phase, outcome) {
            (StopPhase::Reap, Ok(())) => (Stop { phase: StopPhase::Finished }, StopAction::Done(Ok(()), None)),
            (StopPhase::ReapAfterWaitError(w), Ok(())) => (Stop { phase: StopPhase::Finished }, StopAction::Done(Err(w), None)),
            (_, Err(e)) => (Stop { phase: StopPhase::Finished }, StopAction::Done(Err(e), None)),
            (_, Ok(())) => (Stop { phase: StopPhase::Finished }, StopAction::Done(Ok(()), None)),
        }
    }
}

/// What the caller of a watch does next.
pub enum WatchAction {
    /// Ask without blocking whether the child has exited; report with `on_try_wait`.
    TryWait,
    /// Read the clock; report with `on_clock` whether the deadline has passed.
    CheckClock,
    /// Sleep briefly; report with `on_slept`.
    Sleep,
    /// Stop the child (run a `Stop` to its end); report its result with `on_stopped`.
    Stop,
    /// The watch is over. Where the second field holds an error, the child
    /// had to be stopped after a failed wait, and stopping failed too.
    Done(Result<ProcessOutcome, std::io::Error>, Option<std::io::Error>),
}

/// Why a watched child is being stopped.
pub enum StopReason {
    /// Asking whether it exited failed with this error.
    WaitFailed(std::io::Error),
    /// The deadline passed.
    Deadline,
}

pub enum WatchPhase {
    Poll,
    Clock,
    Sleeping,
    Stopping(StopReason),
    Finished,
}

/// Waiting for a child until a deadline, polling; a child that overstays is
/// stopped and reported as timed out.
pub struct Watch {
    pub phase: WatchPhase,
}

impl Watch {
    /// Begins by asking whether the child has exited.
    pub fn start() -> (r: (Watch, WatchAction))
        ensures
            r.0.phase is Poll,
            r.1 is TryWait,
    {
        (Watch { phase: WatchPhase::Poll }, WatchAction::TryWait)
    }

    /// Takes whether the child has exited. An exit ends the watch with the
    /// exit as reported; a running child leads to a look at the clock; a
    /// failed wait leads to stopping the child.
    pub fn on_try_wait(self, outcome: TryWaitOutcome) -> (r: (Watch, WatchAction))
        requires
            self.phase is Poll,
        ensures
            match outcome {
                TryWaitOutcome::Exited(e) => r.0.phase is Finished && r.1 == WatchAction::Done(Ok(ProcessOutcome::Exited(e)), None),
                TryWaitOutcome::Running => r.0.phase is Clock && r.1 is CheckClock,
                TryWaitOutcome::Failed(e) => r.0.phase == WatchPhase::Stopping(StopReason::WaitFailed(e)) && r.1 is Stop,
            },
    {
        match outcome {
            TryWaitOutcome::Exited(e) => (Watch { phase: WatchPhase::Finished }, WatchAction::Done(Ok(ProcessOutcome::Exited(e)), None)),
            TryWaitOutcome::Running => (Watch { phase: WatchPhase::Clock }, WatchAction::CheckClock),
            TryWaitOutcome::Failed(e) => (Watch { phase: WatchPhase::Stopping(StopReason::WaitFailed(e)) }, WatchAction::Stop),
        }
    }

    /// Takes whether the deadline has passed: if so the child is stopped,
    /// else the watch sleeps before asking again.
    pub fn on_clock(self, deadline_passed: bool) -> (r: (Watch, WatchAction))
        requires
            self.phase is Clock,
        ensures
            deadline_passed ==> r.0.phase == WatchPhase::Stopping(StopReason::Deadline) && r.1 is Stop,
            !deadline_passed ==> r.0.phase is Sleeping && r.1 is Sleep,
    {
        if deadline_passed {
            (Watch { phase: WatchPhase::Stopping(StopReason::Deadline) }, WatchAction::Stop)
        } else {
            (Watch { phase: WatchPhase::Sleeping }, WatchAction::Sleep)
        }
    }

    /// After a sleep the child is asked again.
    pub fn on_slept(self) -> (r: (Watch, WatchAction))
        requires
            self.phase is Sleeping,
        ensures
            r.0.phase is Poll,
            r.1 is TryWait,
    {
        (Watch { phase: WatchPhase::Poll }, WatchAction::TryWait)
    }

    /// Takes how stopping the child went. After a failed wait the wait error
    /// is returned, with a failed stop alongside; at the deadline, a stopped
    /// child is reported timed out, and a failed stop is returned.
    pub fn on_stopped(self, stopped: Result<(), std::io::Error>) -> (r: (Watch, WatchAction))
        requires
            self.phase is Stopping,
        ensures
            r.0.phase is Finished,
            match (self.phase, stopped) {
                (WatchPhase::Stopping(StopReason::WaitFailed(w)), Ok(())) => r.1 == WatchAction::Done(Err(w), None),
                (WatchPhase::Stopping(StopReason::WaitFailed(w)), Err(c)) => r.1 == WatchAction::Done(Err(w), Some(c)),
                (WatchPhase::Stopping(StopReason::Deadline), Ok(())) => r.1 == WatchAction::Done(Ok(ProcessOutcome::TimedOut), None),
                (WatchPhase::Stopping(StopReason::Deadline), Err(c)) => r.1 == WatchAction::Done(Err(c), None),
                _ => false,
            },
    {
        match (self.phase, stopped) {
            (WatchPhase::Stopping(StopReason::WaitFailed(w)), Ok(())) => (Watch { phase: WatchPhase::Finished }, WatchAction::Done(Err(w), None)),
            (WatchPhase::Stopping(StopReason::WaitFailed(w)), Err(c)) => (Watch { phase: WatchPhase::Finished }, WatchAction::Done(Err(w), Some(c))),
            (WatchPhase::Stopping(StopReason::Deadline), Ok(())) => (Watch { phase: WatchPhase::Finished }, WatchAction::Done(Ok(ProcessOutcome::TimedOut), None)),
            (_, Err(c)) => (Watch { phase: WatchPhase::Finished }, WatchAction::Done(Err(c), None)),
            (_, Ok(())) => (Watch { phase: WatchPhase::Finished }, WatchAction::Done(Ok(ProcessOutcome::TimedOut), None)),
        }
    }
}

} // verus!
