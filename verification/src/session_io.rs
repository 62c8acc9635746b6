//! The decisions of a session's I/O task: what one read of the PTY leads
//! to, how far one write of input got, and what one look at the exited
//! shell's status gives. Reading, writing and waiting happen around them.

use vstd::prelude::*;

verus! {

/// Why a read or write of the PTY failed, by its `errno`.
#[derive(Debug, Clone, Copy, PartialEq, Eq, Structural)]
pub enum PtyError {
    /// `EIO`: the other side of the PTY is closed.
    Io,
    /// `EAGAIN` or `EWOULDBLOCK`: nothing can be done without blocking.
    WouldBlock,
    /// Any other error.
    Other,
}

/// What the task does after one read of the PTY.
#[derive(Debug, Clone, Copy, PartialEq, Eq, Structural)]
pub enum ReadStep {
    /// The first `len` bytes of the buffer are output to feed and send.
    Data { len: usize },
    /// Wait until the PTY is readable again.
    Retry,
    /// The shell is gone or the PTY failed: leave the loop.
    Stop,
}

/// What one read of the PTY leads to: `n` is what `read` returned and
/// `err` its error when `n` is negative. Output when bytes came, a retry
/// when reading would block, the end otherwise (end of file, `EIO`, any
/// other error).
pub fn read_step(n: isize, err: PtyError) -> (r: ReadStep)
    ensures
        n > 0 ==> r == (ReadStep::Data { len: n as usize }),
        n == 0 ==> r == ReadStep::Stop,
        n < 0 ==> r == (if err == PtyError::WouldBlock {
            ReadStep::Retry
        } else {
            ReadStep::Stop
        }),
{
    if n > 0 {
        ReadStep::Data { len: n as usize }
    } else if n == 0 {
        ReadStep::Stop
    } else {
        match err {
            PtyError::WouldBlock => ReadStep::Retry,
            _ => ReadStep::Stop,
        }
    }
}

/// What the task does after one write of input to the PTY.
#[derive(Debug, Clone, Copy, PartialEq, Eq, Structural)]
pub enum WriteStep {
    /// The input up to `offset` is written; go on from there (done when
    /// it is the input's length).
    Advance { offset: usize },
    /// Yield to the runtime, then write from the same offset again.
    Yield,
    /// Give up on the rest of this input.
    Stop,
}

/// What one write of the input from `offset` (of `len` bytes) leads to: `n`
/// is what `write` returned and `err` its error when `n` is negative.
pub fn write_step(offset: usize, len: usize, n: isize, err: PtyError) -> (r: WriteStep)
    requires
        offset < len,
        n <= len - offset,
    ensures
        n > 0 ==> r == (WriteStep::Advance { offset: (offset + n) as usize }),
        n == 0 ==> r == WriteStep::Stop,
        n < 0 ==> r == (if err == PtyError::WouldBlock {
            WriteStep::Yield
        } else {
            WriteStep::Stop
        }),
{
    if n > 0 {
        WriteStep::Advance { offset: offset + n as usize }
    } else if n == 0 {
        WriteStep::Stop
    } else {
        match err {
            PtyError::WouldBlock => WriteStep::Yield,
            _ => WriteStep::Stop,
        }
    }
}

/// What one non-blocking `waitpid` of the shell gave.
#[derive(Debug, Clone, Copy, PartialEq, Eq, Structural)]
pub enum WaitStatus {
    /// It exited with `code`.
    Exited { code: i32 },
    /// A signal numbered `signal` ended it.
    Signaled { signal: i32 },
    /// It still runs.
    StillAlive,
    /// `waitpid` failed or reported something else.
    Other,
}

/// What the task does after one look at the shell's status.
#[derive(Debug, Clone, Copy, PartialEq, Eq, Structural)]
pub enum WaitStep {
    /// Stop waiting; the exit code, when one is known.
    Done { exit_code: Option<i32> },
    /// Sleep a little and look again.
    Again,
}

/// How long the task waits for the shell's status, in milliseconds.
pub const EXIT_WAIT_LIMIT_MS: u64 = 1000;

/// The exit code a status gives: the code of an exit, 128 plus the signal
/// of a signalled end.
pub open spec fn exit_code_spec(w: WaitStatus) -> Option<i32> {
    match w {
        WaitStatus::Exited { code } => Some(code),
        WaitStatus::Signaled { signal } => Some((128 + signal) as i32),
        _ => None,
    }
}

/// What one look at the shell's status leads to, `elapsed_ms` after the
/// waiting began: the exit code once it exited or was signalled; another
/// look while it still runs, until more than `EXIT_WAIT_LIMIT_MS` have
/// passed; no code when `waitpid` fails.
pub fn wait_step(w: WaitStatus, elapsed_ms: u64) -> (r: WaitStep)
    requires
        w matches WaitStatus::Signaled { signal } ==> signal <= i32::MAX - 128,
    ensures
        r == (match w {
            WaitStatus::StillAlive => if elapsed_ms > EXIT_WAIT_LIMIT_MS {
                WaitStep::Done { exit_code: None }
            } else {
                WaitStep::Again
            },
            _ => WaitStep::Done { exit_code: exit_code_spec(w) },
        }),
{
    match w {
        WaitStatus::Exited { code } => WaitStep::Done { exit_code: Some(code) },
        WaitStatus::Signaled { signal } => WaitStep::Done { exit_code: Some(128 + signal) },
        WaitStatus::StillAlive => if elapsed_ms > EXIT_WAIT_LIMIT_MS {
            WaitStep::Done { exit_code: None }
        } else {
            WaitStep::Again
        },
        WaitStatus::Other => WaitStep::Done { exit_code: None },
    }
}

} // verus!
