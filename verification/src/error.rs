//! The library's error type.

use vstd::prelude::*;
use crate::text::{decimal, push_decimal};

verus! {

/// An I/O error from the standard library.
#[verifier::external_type_specification]
#[verifier::external_body]
pub struct ExIoError(std::io::Error);

/// An error from `anyhow`, the error type of the PTY crate.
#[verifier::external_type_specification]
#[verifier::external_body]
pub struct ExAnyhowError(anyhow::Error);

/// The result of a terminal test operation.
pub type Result<T> = std::result::Result<T, TermTestError>;

/// The errors a terminal test can end in.
#[derive(Debug)]
pub enum TermTestError {
    /// Error from PTY (pseudo-terminal) operations.
    Pty(String),
    /// Standard I/O error.
    Io(std::io::Error),
    /// Timeout waiting for a condition.
    Timeout {
        /// Timeout duration in milliseconds.
        timeout_ms: u64,
    },
    /// Error parsing terminal output, or a failed screen assertion.
    Parse(String),
    /// Snapshot comparison mismatch.
    SnapshotMismatch(String),
    /// Graphics validation failed.
    SixelValidation(String),
    /// Process spawn failed.
    SpawnFailed(String),
    /// A process is already running.
    ProcessAlreadyRunning,
    /// No process is running.
    NoProcessRunning,
    /// Invalid terminal dimensions.
    InvalidDimensions {
        /// Terminal width in columns.
        width: u16,
        /// Terminal height in rows.
        height: u16,
    },
    /// The child process has exited.
    ProcessExited,
    /// Bevy ECS-specific errors.
    Bevy(String),
    /// Latency or timing budget failures.
    Timing(String),
}

/// The text of an I/O error (its `Display`), which names the operating
/// system's message; nothing is stated of it.
#[verifier::external_body]
pub(crate) fn io_error_text(e: &std::io::Error) -> String {
    e.to_string()
}

/// The text of an `anyhow` error (its `Display`); nothing is stated of it.
#[verifier::external_body]
fn anyhow_text(e: &anyhow::Error) -> String {
    e.to_string()
}

/// The message of each variant (`Io` is given its operating-system text separately).
pub open spec fn error_message(e: TermTestError, io_text: Seq<char>) -> Seq<char> {
    match e {
        TermTestError::Pty(s) => "PTY error: "@ + s@,
        TermTestError::Io(_) => "I/O error: "@ + io_text,
        TermTestError::Timeout { timeout_ms } => "Timeout waiting for condition after "@ + decimal(
            timeout_ms as nat,
        ) + "ms"@,
        TermTestError::Parse(s) => "Parse error: "@ + s@,
        TermTestError::SnapshotMismatch(s) => "Snapshot mismatch: "@ + s@,
        TermTestError::SixelValidation(s) => "Sixel validation failed: "@ + s@,
        TermTestError::SpawnFailed(s) => "Failed to spawn process: "@ + s@,
        TermTestError::ProcessAlreadyRunning => "Process is already running"@,
        TermTestError::NoProcessRunning => "No process is running"@,
        TermTestError::InvalidDimensions { width, height } => "Invalid terminal dimensions: width="@
            + decimal(width as nat) + ", height="@ + decimal(height as nat),
        TermTestError::ProcessExited => "Child process has exited"@,
        TermTestError::Bevy(s) => "Bevy error: "@ + s@,
        TermTestError::Timing(s) => "Timing error: "@ + s@,
    }
}

/// `prefix` followed by `s`.
fn prefixed(prefix: &str, s: &String) -> (r: String)
    ensures
        r@ == prefix@ + s@,
{
    let mut out = String::new();
    out.append(prefix);
    out.append(s.as_str());
    out
}

impl TermTestError {
    /// The human-readable message of the error (what its `Display` shows).
    pub fn message(&self) -> (r: String)
        ensures
            !(self is Io) ==> r@ == error_message(*self, Seq::empty()),
            self is Io ==> exists|t: Seq<char>| r@ == error_message(*self, t),
    {
        match self {
            TermTestError::Pty(s) => prefixed("PTY error: ", s),
            TermTestError::Io(e) => {
                let t = io_error_text(e);
                let out = prefixed("I/O error: ", &t);
                assert(out@ == error_message(*self, t@));
                out
            },
            TermTestError::Timeout { timeout_ms } => {
                let mut out = String::new();
                out.append("Timeout waiting for condition after ");
                push_decimal(&mut out, *timeout_ms);
                out.append("ms");
                out
            },
            TermTestError::Parse(s) => prefixed("Parse error: ", s),
            TermTestError::SnapshotMismatch(s) => prefixed("Snapshot mismatch: ", s),
            TermTestError::SixelValidation(s) => prefixed("Sixel validation failed: ", s),
            TermTestError::SpawnFailed(s) => prefixed("Failed to spawn process: ", s),
            TermTestError::ProcessAlreadyRunning => String::from_str("Process is already running"),
            TermTestError::NoProcessRunning => String::from_str("No process is running"),
            TermTestError::InvalidDimensions { width, height } => {
                let mut out = String::new();
                out.append("Invalid terminal dimensions: width=");
                push_decimal(&mut out, *width as u64);
                out.append(", height=");
                push_decimal(&mut out, *height as u64);
                out
            },
            TermTestError::ProcessExited => String::from_str("Child process has exited"),
            TermTestError::Bevy(s) => prefixed("Bevy error: ", s),
            TermTestError::Timing(s) => prefixed("Timing error: ", s),
        }
    }
}

impl From<std::io::Error> for TermTestError {
    fn from(err: std::io::Error) -> (r: TermTestError) {
        TermTestError::Io(err)
    }
}

impl vstd::std_specs::convert::FromSpecImpl<std::io::Error> for TermTestError {
    open spec fn obeys_from_spec() -> bool {
        true
    }

    open spec fn from_spec(err: std::io::Error) -> TermTestError {
        TermTestError::Io(err)
    }
}

impl From<anyhow::Error> for TermTestError {
    fn from(err: anyhow::Error) -> (r: TermTestError)
        ensures
            r is Pty,
    {
        TermTestError::Pty(anyhow_text(&err))
    }
}

impl vstd::std_specs::convert::FromSpecImpl<anyhow::Error> for TermTestError {
    open spec fn obeys_from_spec() -> bool {
        false
    }

    open spec fn from_spec(err: anyhow::Error) -> TermTestError {
        TermTestError::Pty(vstd::pervasive::arbitrary())
    }
}

} // verus!
