//! The decisions of the pseudo-terminal that runs the application under
//! test: which sizes it accepts, what a read comes to, and the steps of its
//! waits for output and for the child process.

use vstd::prelude::*;
use crate::error::TermTestError;

verus! {

/// `Ok` for a usable size; an `InvalidDimensions` error when a side is zero.
pub fn check_dimensions(width: u16, height: u16) -> (r: Result<(), TermTestError>)
    ensures
        r is Ok <==> width > 0 && height > 0,
        r matches Err(e) ==> e == (TermTestError::InvalidDimensions { width, height }),
{
    if width == 0 || height == 0 {
        return Err(TermTestError::InvalidDimensions { width, height });
    }
    Ok(())
}

/// What a bounded read of the terminal's output gave.
#[derive(Debug)]
pub enum PtyRead {
    /// This many bytes were read (zero at the end of the output).
    Bytes(usize),
    /// The read was interrupted by a signal.
    Interrupted,
    /// The read would block.
    WouldBlock,
    /// The read failed otherwise.
    Failed(std::io::Error),
    /// Nothing arrived in time.
    TimedOut,
    /// The reading thread went away.
    Disconnected,
}

/// The result of a read: the byte count, zero when nothing could be read
/// now (interrupted, would block, no data in time, reader gone), or the
/// I/O error of a failed read.
pub fn read_result(outcome: PtyRead) -> (r: Result<usize, TermTestError>)
    ensures
        match outcome {
            PtyRead::Bytes(n) => r == Ok::<usize, TermTestError>(n),
            PtyRead::Failed(e) => r matches Err(TermTestError::Io(x)) && x == e,
            _ => r == Ok::<usize, TermTestError>(0),
        },
{
    match outcome {
        PtyRead::Bytes(n) => Ok(n),
        PtyRead::Failed(e) => Err(TermTestError::Io(e)),
        PtyRead::Interrupted => Ok(0),
        PtyRead::WouldBlock => Ok(0),
        PtyRead::TimedOut => Ok(0),
        PtyRead::Disconnected => Ok(0),
    }
}

/// What a read with a deadline does after one read of `n` bytes: some bytes
/// end it; none end it with a timeout once the time is up; else it reads
/// again after a pause.
#[derive(Debug, Clone, Copy, PartialEq, Eq, Structural)]
pub enum ReadWaitStep {
    /// Return this many bytes.
    Done(usize),
    /// Fail with a timeout.
    TimedOut,
    /// Pause and read again.
    Retry,
}

/// The step of a read with a deadline.
pub fn read_wait_step(n: usize, elapsed_nanos: u128, timeout_nanos: u128) -> (s: ReadWaitStep)
    ensures
        s == if n > 0 {
            ReadWaitStep::Done(n)
        } else if elapsed_nanos >= timeout_nanos {
            ReadWaitStep::TimedOut
        } else {
            ReadWaitStep::Retry
        },
{
    if n > 0 {
        ReadWaitStep::Done(n)
    } else if elapsed_nanos >= timeout_nanos {
        ReadWaitStep::TimedOut
    } else {
        ReadWaitStep::Retry
    }
}

/// What asking the child process whether it has exited gave.
#[derive(Debug, Clone, Copy, PartialEq, Eq, Structural)]
pub enum ChildPoll {
    /// It has exited.
    Exited,
    /// It still runs.
    Running,
    /// The question failed.
    Failed,
}

/// What a wait for the child with a deadline does next.
#[derive(Debug, Clone, Copy, PartialEq, Eq, Structural)]
pub enum ChildWaitStep {
    /// It exited: record its status, forget the child and return the status.
    Exited,
    /// Fail with a timeout.
    TimedOut,
    /// Fail: the status could not be checked.
    Failed,
    /// Pause and ask again.
    Retry,
}

/// The step of a wait for the child with a deadline.
pub fn child_wait_step(poll: ChildPoll, elapsed_nanos: u128, timeout_nanos: u128) -> (s: ChildWaitStep)
    ensures
        s == match poll {
            ChildPoll::Exited => ChildWaitStep::Exited,
            ChildPoll::Failed => ChildWaitStep::Failed,
            ChildPoll::Running => if elapsed_nanos >= timeout_nanos {
                ChildWaitStep::TimedOut
            } else {
                ChildWaitStep::Retry
            },
        },
{
    match poll {
        ChildPoll::Exited => ChildWaitStep::Exited,
        ChildPoll::Failed => ChildWaitStep::Failed,
        ChildPoll::Running => if elapsed_nanos >= timeout_nanos {
            ChildWaitStep::TimedOut
        } else {
            ChildWaitStep::Retry
        },
    }
}

/// Whether the child counts as running after a poll: only when it still
/// runs (an exited child, or one whose status cannot be checked, does not).
pub fn is_running_after(poll: ChildPoll) -> (r: bool)
    ensures
        r == (poll == ChildPoll::Running),
{
    match poll {
        ChildPoll::Running => true,
        _ => false,
    }
}

/// `Ok` when no child runs yet; else `ProcessAlreadyRunning`.
pub fn check_can_spawn(has_child: bool) -> (r: Result<(), TermTestError>)
    ensures
        r is Ok <==> !has_child,
        r matches Err(e) ==> e is ProcessAlreadyRunning,
{
    if has_child {
        return Err(TermTestError::ProcessAlreadyRunning);
    }
    Ok(())
}

/// `Ok` when a child runs; else `NoProcessRunning`.
pub fn check_has_child(has_child: bool) -> (r: Result<(), TermTestError>)
    ensures
        r is Ok <==> has_child,
        r matches Err(e) ==> e is NoProcessRunning,
{
    if !has_child {
        return Err(TermTestError::NoProcessRunning);
    }
    Ok(())
}

} // verus!
