use sync_runner::prepare::{Program, StartAction, Startup};
use sync_runner::process::{ExitReport, ProcessError, Termination, TerminationAction, TryWaitOutcome};
use sync_runner::supervise::{ProcessOutcome, Stop, StopAction, Watch, WatchAction};
use std::io;

fn exited() -> TryWaitOutcome {
    TryWaitOutcome::Exited(ExitReport { success: true, code: Some(0) })
}

fn err(msg: &str) -> io::Error {
    io::Error::other(msg.to_string())
}

#[test]
fn termination_of_an_exited_child_succeeds_at_once() {
    let (t, a) = Termination::start();
    assert!(matches!(a, TerminationAction::TryWait));
    let (_, a) = t.on_try_wait(exited());
    assert!(matches!(a, TerminationAction::Done(Ok(()), None, false)));
}

#[test]
fn termination_kills_then_polls_until_exit() {
    let (t, _) = Termination::start();
    let (t, a) = t.on_try_wait(TryWaitOutcome::Running);
    assert!(matches!(a, TerminationAction::Kill));
    let (t, a) = t.on_kill(Ok(()));
    assert!(matches!(a, TerminationAction::CheckClock));
    let (t, a) = t.on_clock(true);
    assert!(matches!(a, TerminationAction::TryWait));
    let (t, a) = t.on_try_wait(TryWaitOutcome::Running);
    assert!(matches!(a, TerminationAction::Sleep));
    let (t, a) = t.on_slept();
    assert!(matches!(a, TerminationAction::CheckClock));
    let (t, _) = t.on_clock(true);
    let (_, a) = t.on_try_wait(exited());
    assert!(matches!(a, TerminationAction::Done(Ok(()), None, false)));
}

#[test]
fn termination_times_out_past_the_deadline() {
    let (t, _) = Termination::start();
    let (t, _) = t.on_try_wait(TryWaitOutcome::Running);
    let (t, _) = t.on_kill(Ok(()));
    let (_, a) = t.on_clock(false);
    assert!(matches!(a, TerminationAction::Done(Err(ProcessError::TimedOut), None, true)));
}

#[test]
fn termination_after_wait_error_returns_that_error() {
    let (t, _) = Termination::start();
    let (t, a) = t.on_try_wait(TryWaitOutcome::Failed(err("wait")));
    assert!(matches!(a, TerminationAction::Kill));
    let (t, _) = t.on_kill(Ok(()));
    let (t, _) = t.on_clock(true);
    let (_, a) = t.on_try_wait(exited());
    match a {
        TerminationAction::Done(Err(ProcessError::Io(e)), None, false) => assert_eq!(e.to_string(), "wait"),
        _ => panic!("expected the wait error"),
    }
}

#[test]
fn termination_reports_both_errors_when_kill_fails_after_wait_error() {
    let (t, _) = Termination::start();
    let (t, _) = t.on_try_wait(TryWaitOutcome::Failed(err("wait")));
    let (_, a) = t.on_kill(Err(err("kill")));
    match a {
        TerminationAction::Done(Err(ProcessError::Io(w)), Some(k), false) => {
            assert_eq!(w.to_string(), "wait");
            assert_eq!(k.to_string(), "kill");
        }
        _ => panic!("expected both errors"),
    }
}

#[test]
fn termination_with_failed_kill_checks_exit() {
    let (t, _) = Termination::start();
    let (t, _) = t.on_try_wait(TryWaitOutcome::Running);
    let (t, a) = t.on_kill(Err(err("kill")));
    assert!(matches!(a, TerminationAction::TryWait));
    let (_, a) = t.on_try_wait(TryWaitOutcome::Running);
    match a {
        TerminationAction::Done(Err(ProcessError::Io(k)), None, false) => assert_eq!(k.to_string(), "kill"),
        _ => panic!("expected the kill error"),
    }
}

#[test]
fn stop_kills_and_reaps() {
    let (s, _) = Stop::start();
    let (s, a) = s.on_try_wait(TryWaitOutcome::Running);
    assert!(matches!(a, StopAction::Kill));
    let (s, a) = s.on_kill(Ok(()));
    assert!(matches!(a, StopAction::Wait));
    let (_, a) = s.on_wait(Ok(()));
    assert!(matches!(a, StopAction::Done(Ok(()), None)));
}

#[test]
fn stop_after_wait_error_returns_it() {
    let (s, _) = Stop::start();
    let (s, _) = s.on_try_wait(TryWaitOutcome::Failed(err("wait")));
    let (s, _) = s.on_kill(Ok(()));
    let (_, a) = s.on_wait(Ok(()));
    match a {
        StopAction::Done(Err(e), None) => assert_eq!(e.to_string(), "wait"),
        _ => panic!("expected the wait error"),
    }
}

#[test]
fn watch_reports_exit_status() {
    let (w, _) = Watch::start();
    let (w, a) = w.on_try_wait(TryWaitOutcome::Running);
    assert!(matches!(a, WatchAction::CheckClock));
    let (w, a) = w.on_clock(false);
    assert!(matches!(a, WatchAction::Sleep));
    let (w, _) = w.on_slept();
    let (_, a) = w.on_try_wait(TryWaitOutcome::Exited(ExitReport { success: false, code: Some(3) }));
    match a {
        WatchAction::Done(Ok(o), None) => {
            assert_eq!(o, ProcessOutcome::Exited(ExitReport { success: false, code: Some(3) }));
            assert!(!o.success());
        }
        _ => panic!("expected an exit"),
    }
}

#[test]
fn watch_times_out_after_stopping() {
    let (w, _) = Watch::start();
    let (w, _) = w.on_try_wait(TryWaitOutcome::Running);
    let (w, a) = w.on_clock(true);
    assert!(matches!(a, WatchAction::Stop));
    let (_, a) = w.on_stopped(Ok(()));
    assert!(matches!(a, WatchAction::Done(Ok(ProcessOutcome::TimedOut), None)));
}

#[test]
fn watch_returns_wait_error_after_cleanup() {
    let (w, _) = Watch::start();
    let (w, a) = w.on_try_wait(TryWaitOutcome::Failed(err("wait")));
    assert!(matches!(a, WatchAction::Stop));
    let (_, a) = w.on_stopped(Err(err("cleanup")));
    match a {
        WatchAction::Done(Err(e), Some(c)) => {
            assert_eq!(e.to_string(), "wait");
            assert_eq!(c.to_string(), "cleanup");
        }
        _ => panic!("expected the wait error"),
    }
}

#[test]
fn startup_stops_a_server_without_client() {
    let (mut s, a) = Startup::start();
    assert!(matches!(a, StartAction::Start(Program::Server)));
    assert!(matches!(s.on_started(true), StartAction::Start(Program::Client)));
    assert!(matches!(s.on_started(false), StartAction::StopServer));
    assert!(matches!(s.on_stopped(), StartAction::Done(false)));

    let (mut s, _) = Startup::start();
    assert!(matches!(s.on_started(false), StartAction::Done(false)));

    let (mut s, _) = Startup::start();
    s.on_started(true);
    assert!(matches!(s.on_started(true), StartAction::Done(true)));
}
