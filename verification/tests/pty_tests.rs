use ratatui_testlib::harness::{wait_any_step, WaitResult};
use ratatui_testlib::pty::{
    check_can_spawn, check_dimensions, check_has_child, child_wait_step, is_running_after, read_result,
    read_wait_step, ChildPoll, ChildWaitStep, PtyRead, ReadWaitStep,
};
use ratatui_testlib::TermTestError;

#[test]
fn test_invalid_dimensions() {
    assert!(check_dimensions(80, 24).is_ok());
    assert!(matches!(check_dimensions(0, 24), Err(TermTestError::InvalidDimensions { width: 0, height: 24 })));
    assert!(matches!(check_dimensions(80, 0), Err(TermTestError::InvalidDimensions { width: 80, height: 0 })));
}

#[test]
fn test_read_results() {
    assert_eq!(read_result(PtyRead::Bytes(7)).ok(), Some(7));
    assert_eq!(read_result(PtyRead::Interrupted).ok(), Some(0));
    assert_eq!(read_result(PtyRead::WouldBlock).ok(), Some(0));
    assert_eq!(read_result(PtyRead::TimedOut).ok(), Some(0));
    assert_eq!(read_result(PtyRead::Disconnected).ok(), Some(0));
    let e = std::io::Error::new(std::io::ErrorKind::BrokenPipe, "gone");
    assert!(matches!(read_result(PtyRead::Failed(e)), Err(TermTestError::Io(_))));
}

#[test]
fn test_wait_steps_of_terminal() {
    assert_eq!(read_wait_step(3, 0, 10), ReadWaitStep::Done(3));
    assert_eq!(read_wait_step(0, 10, 10), ReadWaitStep::TimedOut);
    assert_eq!(read_wait_step(0, 9, 10), ReadWaitStep::Retry);
    assert_eq!(child_wait_step(ChildPoll::Exited, 100, 10), ChildWaitStep::Exited);
    assert_eq!(child_wait_step(ChildPoll::Failed, 0, 10), ChildWaitStep::Failed);
    assert_eq!(child_wait_step(ChildPoll::Running, 10, 10), ChildWaitStep::TimedOut);
    assert_eq!(child_wait_step(ChildPoll::Running, 1, 10), ChildWaitStep::Retry);
    assert!(is_running_after(ChildPoll::Running));
    assert!(!is_running_after(ChildPoll::Exited));
    assert!(!is_running_after(ChildPoll::Failed));
}

#[test]
fn test_spawn_already_running() {
    assert!(check_can_spawn(false).is_ok());
    assert!(matches!(check_can_spawn(true), Err(TermTestError::ProcessAlreadyRunning)));
    assert!(matches!(check_has_child(false), Err(TermTestError::NoProcessRunning)));
    assert!(check_has_child(true).is_ok());
}

#[test]
fn test_wait_any() {
    assert_eq!(wait_any_step(&vec![false, true, true], 0, 10), Some(WaitResult::Condition(1)));
    assert_eq!(wait_any_step(&vec![false, false], 5_000_000, 5_000_000), Some(WaitResult::Timeout(5)));
    assert_eq!(wait_any_step(&vec![], 1, 5_000_000), None);
    assert_ne!(WaitResult::Satisfied, WaitResult::Condition(0));
}

#[test]
fn test_no_process_running_errors() {
    let result = check_has_child(false);
    assert!(matches!(result, Err(TermTestError::NoProcessRunning)));
    assert!(check_has_child(true).is_ok());
}
