use ratatui_testlib::error::TermTestError;

#[test]
fn test_io_error_conversion() {
    let io_err = std::io::Error::new(std::io::ErrorKind::NotFound, "test error");
    let term_err: TermTestError = io_err.into();

    assert!(matches!(term_err, TermTestError::Io(_)));
    assert!(term_err.message().contains("test error"));
}

#[test]
fn test_timeout_error_message() {
    let err = TermTestError::Timeout { timeout_ms: 5000 };
    let msg = err.message();

    assert!(msg.contains("5000"));
    assert!(msg.contains("Timeout"));
}

#[test]
fn test_invalid_dimensions_error() {
    let err = TermTestError::InvalidDimensions { width: 0, height: 24 };
    let msg = err.message();

    assert!(msg.contains("Invalid"));
    assert!(msg.contains("width=0"));
    assert!(msg.contains("height=24"));
}

#[test]
fn test_spawn_failed_error() {
    let err = TermTestError::SpawnFailed("command not found".to_string());
    let msg = err.message();

    assert!(msg.contains("Failed to spawn"));
    assert!(msg.contains("command not found"));
}

#[test]
fn test_process_already_running_error() {
    let err = TermTestError::ProcessAlreadyRunning;
    let msg = err.message();

    assert!(msg.contains("already running"));
}

#[test]
fn test_no_process_running_error() {
    let err = TermTestError::NoProcessRunning;
    let msg = err.message();

    assert!(msg.contains("No process"));
}

#[test]
fn test_anyhow_error_conversion() {
    let anyhow_err = anyhow::Error::msg("test anyhow error");
    let term_err: TermTestError = anyhow_err.into();

    assert!(matches!(term_err, TermTestError::Pty(_)));
    assert!(term_err.message().contains("test anyhow error"));
}

#[test]
fn test_process_exited_error() {
    let err = TermTestError::ProcessExited;
    let msg = err.message();

    assert!(msg.contains("exited"));
    assert!(msg.contains("Child process"));
}

#[test]
fn test_sixel_validation_error() {
    let err = TermTestError::SixelValidation("out of bounds".to_string());
    let msg = err.message();

    assert!(msg.contains("Sixel"));
    assert!(msg.contains("out of bounds"));
}

#[test]
fn test_exact_messages() {
    assert_eq!(TermTestError::Timeout { timeout_ms: 250 }.message(), "Timeout waiting for condition after 250ms");
    assert_eq!(
        TermTestError::InvalidDimensions { width: 3, height: 0 }.message(),
        "Invalid terminal dimensions: width=3, height=0"
    );
    assert_eq!(TermTestError::Parse("x".to_string()).message(), "Parse error: x");
    assert_eq!(TermTestError::Timing("slow".to_string()).message(), "Timing error: slow");
}
