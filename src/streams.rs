//! The stream registry: the host handles of the output and error-output
//! streams, set once from the host's answers to OPEN.

use vstd::prelude::*;

verus! {

/// The host path that names the debugger's own terminal.
pub const TERMINAL_PATH: &'static str = ":tt";

/// Host access mode that opens the terminal as standard output.
pub const STDOUT_MODE: usize = 4;

/// Host access mode that opens the terminal as standard error.
pub const STDERR_MODE: usize = 8;

/// The handle stored in a slot that no OPEN has set.
pub const UNSET_HANDLE: isize = -1;

/// Why a stream could not be opened.
#[derive(Clone, Copy, Debug, PartialEq, Eq, Structural)]
pub enum StreamError {
    /// The host answered OPEN with a negative handle.
    OpenFailed,
}

/// Which of the two host streams.
#[derive(Clone, Copy, Debug, PartialEq, Eq, Structural)]
pub enum StreamKind {
    /// Standard output.
    Stdout,
    /// Standard error.
    Stderr,
}

/// A host OPEN operation to issue: the path to open and the access mode.
#[derive(Clone, Copy, Debug, PartialEq, Eq)]
pub struct OpenRequest {
    pub path: &'static str,
    pub mode: usize,
}

/// The access mode that opens the terminal as the given stream.
pub open spec fn mode_of(kind: StreamKind) -> usize {
    match kind {
        StreamKind::Stdout => STDOUT_MODE,
        StreamKind::Stderr => STDERR_MODE,
    }
}

/// The handle that the host's answer to OPEN stands for: the machine word read
/// as a signed value.
pub open spec fn handle_of(reply: usize) -> isize {
    reply as isize
}

/// What a caller gets for a stored handle: the handle itself when it is open,
/// `OpenFailed` when it is negative.
pub open spec fn handle_result(h: isize) -> Result<isize, StreamError> {
    if h >= 0 {
        Ok(h)
    } else {
        Err(StreamError::OpenFailed)
    }
}

/// The OPEN operation that opens the terminal as the given stream.
pub fn open_request(kind: StreamKind) -> (r: OpenRequest)
    ensures
        r.path@ == TERMINAL_PATH@,
        r.mode == mode_of(kind),
{
    match kind {
        StreamKind::Stdout => OpenRequest { path: TERMINAL_PATH, mode: STDOUT_MODE },
        StreamKind::Stderr => OpenRequest { path: TERMINAL_PATH, mode: STDERR_MODE },
    }
}

/// Reads the host's answer to OPEN as a handle.
pub fn reply_handle(reply: usize) -> (r: isize)
    ensures
        r == handle_of(reply),
{
    reply as isize
}

/// Turns a stored handle into what a caller of the stream gets.
pub fn check_handle(h: isize) -> (r: Result<isize, StreamError>)
    ensures
        r == handle_result(h),
{
    if h >= 0 {
        Ok(h)
    } else {
        Err(StreamError::OpenFailed)
    }
}

/// The handles of the host's output and error-output streams. A registry is
/// made either unopened or from the host's answers to the two OPEN operations,
/// and never changes afterwards: no handle is stored twice.
pub struct Streams {
    stdout: isize,
    stderr: isize,
}

impl Streams {
    /// The handle of standard output.
    pub closed spec fn spec_stdout(self) -> isize {
        self.stdout
    }

    /// The handle of standard error.
    pub closed spec fn spec_stderr(self) -> isize {
        self.stderr
    }

    /// A registry that no OPEN has set: both handles are the unset sentinel.
    pub fn new() -> (r: Streams)
        ensures
            r.spec_stdout() == UNSET_HANDLE,
            r.spec_stderr() == UNSET_HANDLE,
    {
        Streams { stdout: UNSET_HANDLE, stderr: UNSET_HANDLE }
    }
}

/// The handle of the host's standard output (negative: not open).
pub fn get_stdout(streams: &Streams) -> (r: isize)
    ensures
        r == streams.spec_stdout(),
{
    streams.stdout
}

/// The handle of the host's standard error (negative: not open).
pub fn get_stderr(streams: &Streams) -> (r: isize)
    ensures
        r == streams.spec_stderr(),
{
    streams.stderr
}

/// Builds the registry from the host's answers to OPEN on the terminal with
/// `STDOUT_MODE` and with `STDERR_MODE` (see `open_request`). Both handles are
/// stored whatever they are; the result is `OpenFailed` when either is negative.
pub fn open_streams(stdout_reply: usize, stderr_reply: usize) -> (r: (
    Streams,
    Result<(), StreamError>,
))
    ensures
        r.0.spec_stdout() == handle_of(stdout_reply),
        r.0.spec_stderr() == handle_of(stderr_reply),
        r.1 is Ok <==> handle_of(stdout_reply) >= 0 && handle_of(stderr_reply) >= 0,
        r.1 is Err ==> r.1 == Err::<(), StreamError>(StreamError::OpenFailed),
{
    let stdout_fd = reply_handle(stdout_reply);
    let stderr_fd = reply_handle(stderr_reply);
    let streams = Streams { stdout: stdout_fd, stderr: stderr_fd };
    if stdout_fd < 0 || stderr_fd < 0 {
        (streams, Err(StreamError::OpenFailed))
    } else {
        (streams, Ok(()))
    }
}

} // verus!
