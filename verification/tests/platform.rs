use stitch_pty::errors::{Platform, PtyErrorKind};
use stitch_pty::platform::{
    checked_signal, child_repr, kill_result, master_repr, process_group, reap_step, session_repr,
    unix_signal, windows_exit, windows_signal, ChildState, ExitStatus, KillOutcome, ProcessExit,
    ReapStep, Termination, TerminationEvent, WaitOutcome, WindowsSignal,
};

#[test]
fn test_exit_status_success_zero() {
    let es = ExitStatus::with_exit_code(0);
    assert!(es.success());
    assert_eq!(es.exit_code(), 0);
    assert!(es.signal().is_none());
}

#[test]
fn test_exit_status_failure_nonzero() {
    let es = ExitStatus::with_exit_code(1);
    assert!(!es.success());
    assert_eq!(es.exit_code(), 1);
    assert!(es.signal().is_none());
}

#[test]
fn test_exit_status_large_code() {
    let es = ExitStatus::with_exit_code(255);
    assert!(!es.success());
    assert_eq!(es.exit_code(), 255);
}

#[test]
fn test_exit_status_from_signal() {
    let es = ExitStatus::with_signal("SIGTERM");
    assert!(!es.success());
    assert_eq!(es.signal(), Some("SIGTERM"));
    assert_eq!(es.exit_code(), 1);
}

#[test]
fn test_exit_status_display_success() {
    let es = ExitStatus::with_exit_code(0);
    assert_eq!(es.to_string(), "Success");
}

#[test]
fn test_exit_status_display_failure_code() {
    let es = ExitStatus::with_exit_code(42);
    assert_eq!(es.to_string(), "Exited with code 42");
}

#[test]
fn test_exit_status_display_signal() {
    let es = ExitStatus::with_signal("SIGKILL");
    assert_eq!(es.to_string(), "Terminated by SIGKILL");
}

#[test]
fn test_exit_status_clone() {
    let es1 = ExitStatus::with_exit_code(42);
    let es2 = es1.clone();
    assert_eq!(es1.exit_code(), es2.exit_code());
    assert_eq!(es1.signal(), es2.signal());
}

#[test]
fn test_exit_status_debug() {
    let es = ExitStatus::with_exit_code(1);
    let debug = format!("{:?}", es);
    assert!(debug.contains("42") || debug.contains("1"));
}

#[test]
fn test_process_exit_to_exit_status_code() {
    let pe = ProcessExit { pid: 1234, exit_code: Some(0), signal: None };
    let es = pe.to_exit_status();
    assert!(es.success());
    assert_eq!(es.exit_code(), 0);
}

#[test]
fn test_process_exit_to_exit_status_failure() {
    let pe = ProcessExit { pid: 1234, exit_code: Some(1), signal: None };
    let es = pe.to_exit_status();
    assert!(!es.success());
    assert_eq!(es.exit_code(), 1);
}

#[test]
fn test_process_exit_to_exit_status_signal() {
    let pe = ProcessExit { pid: 1234, exit_code: None, signal: Some(9) };
    let es = pe.to_exit_status();
    assert!(!es.success());
    assert_eq!(es.signal(), Some("SIG9"));
}

#[test]
fn test_process_exit_to_exit_status_both_none() {
    let pe = ProcessExit { pid: 1234, exit_code: None, signal: None };
    let es = pe.to_exit_status();
    assert!(!es.success());
    assert_eq!(es.exit_code(), 1);
}

#[test]
fn test_process_exit_debug() {
    let pe = ProcessExit { pid: 42, exit_code: Some(0), signal: None };
    let debug = format!("{:?}", pe);
    assert!(debug.contains("42"));
}

#[test]
fn test_process_exit_clone() {
    let pe1 = ProcessExit { pid: 42, exit_code: Some(0), signal: None };
    let pe2 = pe1.clone();
    assert_eq!(pe1.pid, pe2.pid);
    assert_eq!(pe1.exit_code, pe2.exit_code);
}


#[test]
fn a_report_with_a_code_and_a_signal_is_a_failure() {
    let pe = ProcessExit { pid: 1, exit_code: Some(0), signal: Some(9) };
    let es = pe.to_exit_status();
    assert_eq!(es.exit_code(), 1);
    assert!(es.signal().is_none());
}

#[test]
fn a_negative_code_keeps_its_bits() {
    let pe = ProcessExit { pid: 1, exit_code: Some(-1), signal: None };
    assert_eq!(pe.to_exit_status().exit_code(), u32::MAX);
    let exit = windows_exit(7, Some(0xc000_0005)).unwrap();
    assert_eq!((exit.pid, exit.exit_code, exit.signal), (7, Some(-1073741819), None));
    assert!(windows_exit(7, Some(259)).is_none());
    assert!(windows_exit(7, None).is_none());
    assert_eq!(windows_exit(7, Some(0)).unwrap().exit_code, Some(0));
}

#[test]
fn a_child_is_watched_until_it_ends() {
    let mut child = ChildState::new(42);
    assert_eq!(child.pid(), 42);
    assert!(child.wait_result().is_none());
    assert!(child.observe(WaitOutcome::StillAlive));
    assert!(child.observe(WaitOutcome::Interrupted));
    assert!(child.observe(WaitOutcome::Other));
    assert!(!child.observe(WaitOutcome::Exited { pid: 42, code: 3 }));
    assert!(!child.observe(WaitOutcome::Signaled { pid: 42, signal: 9 }));
    let exit = child.wait_result().unwrap();
    assert_eq!(ProcessExit::report(&exit), (42, Some(3), None, false));
}

#[test]
fn a_child_that_cannot_be_asked_after_has_no_report() {
    let mut child = ChildState::new(42);
    assert!(!child.observe(WaitOutcome::Failed));
    let exit = child.wait_result().unwrap();
    assert!(exit.is_none());
    assert_eq!(ProcessExit::report(&exit), (0, None, None, false));
}

#[test]
fn a_signal_ends_the_watch() {
    let mut child = ChildState::new(8);
    assert!(!child.observe(WaitOutcome::Signaled { pid: 8, signal: 15 }));
    let exit = child.wait_result().unwrap().unwrap();
    assert_eq!(exit.to_exit_status().to_string(), "Terminated by SIG15");
}

#[test]
fn a_killed_child_is_reaped() {
    assert_eq!(reap_step(WaitOutcome::StillAlive), ReapStep::Pause);
    assert_eq!(reap_step(WaitOutcome::Other), ReapStep::Again);
    assert_eq!(reap_step(WaitOutcome::Failed), ReapStep::Done);
    assert_eq!(reap_step(WaitOutcome::Interrupted), ReapStep::Done);
    assert_eq!(reap_step(WaitOutcome::Exited { pid: 1, code: 0 }), ReapStep::Done);
    assert_eq!(reap_step(WaitOutcome::Signaled { pid: 1, signal: 9 }), ReapStep::Done);
}

#[test]
fn a_termination_asks_before_it_kills() {
    let state = Termination::Asking;
    assert_eq!(state.signal(), Some(15));
    let state = state.next(TerminationEvent::Sent);
    assert_eq!(state, Termination::Waiting);
    assert_eq!(state.signal(), None);
    assert_eq!(state.next(TerminationEvent::Ended), Termination::Done);
    let state = state.next(TerminationEvent::Expired);
    assert_eq!(state.signal(), Some(9));
    let state = state.next(TerminationEvent::Sent);
    assert_eq!(state, Termination::Reaping);
    assert_eq!(state.next(TerminationEvent::Expired), Termination::Reaping);
    assert_eq!(state.next(TerminationEvent::Ended), Termination::Done);
}

#[test]
fn unix_knows_its_signals() {
    assert_eq!(unix_signal(15), Ok(15));
    assert_eq!(unix_signal(2), Ok(2));
    assert_eq!(
        unix_signal(0),
        Err(PtyErrorKind::SignalError("Invalid signal: 0".to_string()))
    );
    assert_eq!(
        unix_signal(-3),
        Err(PtyErrorKind::SignalError("Invalid signal: -3".to_string()))
    );
    assert_eq!(
        unix_signal(9999),
        Err(PtyErrorKind::SignalError("Invalid signal: 9999".to_string()))
    );
    assert_eq!(checked_signal(64, true), Ok(64));
    assert!(checked_signal(64, false).is_err());
    assert_eq!(process_group(300), -300);
}

#[test]
fn a_signal_to_the_dead_counts_as_sent() {
    assert_eq!(kill_result(KillOutcome::Sent), Ok(()));
    assert_eq!(kill_result(KillOutcome::NotPermitted), Ok(()));
    assert_eq!(
        kill_result(KillOutcome::Failed("ESRCH".to_string())),
        Err(PtyErrorKind::SignalError("ESRCH".to_string()))
    );
}

#[test]
fn windows_has_three_signals() {
    assert_eq!(windows_signal(2), Ok(WindowsSignal::CtrlC));
    assert_eq!(windows_signal(9), Ok(WindowsSignal::Terminate));
    assert_eq!(windows_signal(15), Ok(WindowsSignal::Terminate));
    assert_eq!(
        windows_signal(1),
        Err(PtyErrorKind::SignalError("Signal 1 not supported on Windows".to_string()))
    );
}

#[test]
fn handles_are_shown() {
    assert_eq!(master_repr(Platform::Unix, true), "PtyMaster(platform=unix, open=true)");
    assert_eq!(child_repr(17, false), "PtyChild(pid=17, running=false)");
    assert_eq!(
        session_repr(Platform::Windows, false, 17, true),
        "PtySession(master=PtyMaster(platform=windows, open=false), \
         child=PtyChild(pid=17, running=true))"
    );
}
