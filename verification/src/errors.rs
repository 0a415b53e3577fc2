//! What can go wrong with a pseudo-terminal, what is said of it, and which exception stands for
//! it where the library is used from Python.
use crate::text;
use vstd::prelude::*;

verus! {

/// A span of time: whole seconds and the nanoseconds beyond them.
#[derive(Clone, Copy, Debug, PartialEq, Eq)]
pub struct TimeSpan {
    pub secs: u64,
    pub nanos: u32,
}

impl TimeSpan {
    /// The nanoseconds make less than a second.
    pub open spec fn wf(self) -> bool {
        self.nanos < 1_000_000_000
    }

    /// A span of whole seconds.
    pub fn from_secs(secs: u64) -> (span: TimeSpan)
        ensures
            span.wf(),
            span.secs == secs,
            span.nanos == 0,
    {
        TimeSpan { secs, nanos: 0 }
    }

    /// A span of milliseconds.
    pub fn from_millis(millis: u64) -> (span: TimeSpan)
        ensures
            span.wf(),
            span.secs * 1000 + span.nanos as int / 1_000_000 == millis,
            span.nanos % 1_000_000 == 0,
    {
        let rest: u32 = (millis % 1000) as u32;
        TimeSpan { secs: millis / 1000, nanos: rest * 1_000_000 }
    }
}

/// What the standard library prints of a `Duration` of so many seconds and nanoseconds under
/// its `Debug` format.
pub uninterp spec fn duration_text(secs: u64, nanos: u32) -> Seq<char>;

/// The text that `std::time::Duration` prints of itself under `{:?}`, for the duration that
/// `Duration::new` makes of `secs` and `nanos`. The text is a function of the two numbers; which
/// one it is, is left to the standard library. With less than a second of nanoseconds nothing is
/// carried into the seconds, so `Duration::new` does not overflow.
#[verifier::external_body]
fn format_duration(secs: u64, nanos: u32) -> (s: String)
    requires
        nanos < 1_000_000_000,
    ensures
        s@ == duration_text(secs, nanos),
{
    format!("{:?}", std::time::Duration::new(secs, nanos))
}

/// What is said of a timeout whose span prints as `span`.
pub fn timeout_message(span: &str) -> (s: String)
    ensures
        s@ == "Timeout after "@ + span@,
{
    text::joined("Timeout after ", span)
}

/// A failure of a pseudo-terminal, of its child process or of an operation on either.
#[derive(Debug, PartialEq, Eq)]
pub enum PtyErrorKind {
    OpenFailed(String),
    OperationFailed(String),
    ForkFailed(String),
    ProcessNotRunning,
    InvalidHandle,
    WinsizeFailed(String),
    SignalError(String),
    AsyncIo(String),
    BufferOverflow { requested: usize, max: usize },
    Closed,
    Eof,
    Timeout(TimeSpan),
    PlatformNotSupported(String),
    WindowsError(String),
}

/// The outcome of an operation on a pseudo-terminal.
pub type PtyResult<T> = Result<T, PtyErrorKind>;

/// The family of systems that a pseudo-terminal lives on.
#[derive(Clone, Copy, Debug, PartialEq, Eq, Structural)]
pub enum Platform {
    Unix,
    Windows,
}

/// A failed read or write: the system's error number, where there is one, and what it says.
#[derive(Clone, Debug, PartialEq, Eq)]
pub struct IoFailure {
    pub raw_os_error: Option<i32>,
    pub message: String,
}

/// The exception that stands for an error in Python.
#[derive(Clone, Copy, Debug, PartialEq, Eq, Structural)]
pub enum ExceptionClass {
    /// `PtyError` of this library.
    PtyError,
    /// `ProcessError` of this library.
    ProcessError,
    /// `IOError` of this library.
    IoError,
    /// The built-in `OSError`.
    OsError,
    /// The built-in `OSError` with `errno == 0` and `kind == "eof"`.
    EndOfFile,
    /// The built-in `IOError`.
    BuiltinIoError,
}

/// EIO: what a Unix master reports once the child's side is gone.
pub const EIO: i32 = 5;

/// ERROR_BROKEN_PIPE of Windows.
pub const ERROR_BROKEN_PIPE: i32 = 109;

/// ERROR_NO_DATA of Windows.
pub const ERROR_NO_DATA: i32 = 232;

/// The system error numbers that say, on a read, that the child's side is closed.
pub open spec fn ends_reading(platform: Platform, code: Option<i32>) -> bool {
    match platform {
        Platform::Unix => code == Some(EIO),
        Platform::Windows => code == Some(ERROR_BROKEN_PIPE) || code == Some(ERROR_NO_DATA),
    }
}

/// True when a failed read means that the child's side closed.
pub fn is_eof_error(platform: Platform, err: &IoFailure) -> (b: bool)
    ensures
        b == ends_reading(platform, err.raw_os_error),
{
    match err.raw_os_error {
        Some(code) => match platform {
            Platform::Unix => code == EIO,
            Platform::Windows => code == ERROR_BROKEN_PIPE || code == ERROR_NO_DATA,
        },
        None => false,
    }
}

/// What a Unix master's read amounts to: the bytes that were read, none once the child's side is
/// gone, or the failure.
pub fn unix_read(outcome: Result<usize, IoFailure>) -> (r: Result<usize, IoFailure>)
    ensures
        r == match outcome {
            Ok(n) => Ok::<usize, IoFailure>(n),
            Err(e) => if ends_reading(Platform::Unix, e.raw_os_error) {
                Ok::<usize, IoFailure>(0)
            } else {
                Err::<usize, IoFailure>(e)
            },
        },
{
    match outcome {
        Ok(n) => Ok(n),
        Err(e) => if is_eof_error(Platform::Unix, &e) {
            Ok(0)
        } else {
            Err(e)
        },
    }
}

/// True when a failed write to a Unix master is a broken pipe: nobody holds the child's side.
pub fn is_broken_pipe(err: &IoFailure) -> (b: bool)
    ensures
        b == (err.raw_os_error == Some(EIO)),
{
    match err.raw_os_error {
        Some(code) => code == EIO,
        None => false,
    }
}

impl PtyErrorKind {
    /// The span of a timeout is a proper one.
    pub open spec fn wf(self) -> bool {
        self matches PtyErrorKind::Timeout(span) ==> span.wf()
    }

    /// What is said of the error.
    pub open spec fn message(self) -> Seq<char> {
        match self {
            PtyErrorKind::OpenFailed(m) => "PTY open failed: "@ + m@,
            PtyErrorKind::OperationFailed(m) => "PTY operation failed: "@ + m@,
            PtyErrorKind::ForkFailed(m) => "Process spawn failed: "@ + m@,
            PtyErrorKind::ProcessNotRunning => "Process not running"@,
            PtyErrorKind::InvalidHandle => "Invalid handle/FD"@,
            PtyErrorKind::WinsizeFailed(m) => "Window size operation failed: "@ + m@,
            PtyErrorKind::SignalError(m) => "Signal handling error: "@ + m@,
            PtyErrorKind::AsyncIo(m) => "Async I/O error: "@ + m@,
            PtyErrorKind::BufferOverflow { requested, max } => "Buffer overflow: requested "@
                + text::decimal(requested as nat) + ", max "@ + text::decimal(max as nat),
            PtyErrorKind::Closed => "PTY is closed"@,
            PtyErrorKind::Eof => "PTY EOF: child side closed"@,
            PtyErrorKind::Timeout(span) => "Timeout after "@ + duration_text(
                span.secs,
                span.nanos,
            ),
            PtyErrorKind::PlatformNotSupported(m) => "Platform not supported: "@ + m@,
            PtyErrorKind::WindowsError(m) => "Windows API error: "@ + m@,
        }
    }

    /// What is said of the error.
    pub fn to_string(&self) -> (s: String)
        requires
            self.wf(),
        ensures
            s@ == self.message(),
    {
        match self {
            PtyErrorKind::OpenFailed(m) => text::joined("PTY open failed: ", m.as_str()),
            PtyErrorKind::OperationFailed(m) => text::joined("PTY operation failed: ", m.as_str()),
            PtyErrorKind::ForkFailed(m) => text::joined("Process spawn failed: ", m.as_str()),
            PtyErrorKind::ProcessNotRunning => "Process not running".to_string(),
            PtyErrorKind::InvalidHandle => "Invalid handle/FD".to_string(),
            PtyErrorKind::WinsizeFailed(m) => text::joined(
                "Window size operation failed: ",
                m.as_str(),
            ),
            PtyErrorKind::SignalError(m) => text::joined("Signal handling error: ", m.as_str()),
            PtyErrorKind::AsyncIo(m) => text::joined("Async I/O error: ", m.as_str()),
            PtyErrorKind::BufferOverflow { requested, max } => {
                let mut s = "Buffer overflow: requested ".to_string();
                text::push_decimal(&mut s, *requested as u128);
                s.append(", max ");
                text::push_decimal(&mut s, *max as u128);
                s
            },
            PtyErrorKind::Closed => "PTY is closed".to_string(),
            PtyErrorKind::Eof => "PTY EOF: child side closed".to_string(),
            PtyErrorKind::Timeout(span) => {
                let span_text = format_duration(span.secs, span.nanos);
                timeout_message(span_text.as_str())
            },
            PtyErrorKind::PlatformNotSupported(m) => text::joined(
                "Platform not supported: ",
                m.as_str(),
            ),
            PtyErrorKind::WindowsError(m) => text::joined("Windows API error: ", m.as_str()),
        }
    }

    /// The error of a failed read: `Eof` where the child's side closed, else `AsyncIo` with what
    /// the system says. Not for writes, where the same numbers mean a broken pipe.
    pub fn from_read_error(platform: Platform, err: IoFailure) -> (kind: Self)
        ensures
            kind == if ends_reading(platform, err.raw_os_error) {
                PtyErrorKind::Eof
            } else {
                PtyErrorKind::AsyncIo(err.message)
            },
    {
        if is_eof_error(platform, &err) {
            PtyErrorKind::Eof
        } else {
            PtyErrorKind::AsyncIo(err.message)
        }
    }

    /// The error of a failed system call, from what the system says of it and the name of its
    /// error number.
    pub fn from_errno(description: &str, name: &str) -> (kind: Self)
        ensures
            kind matches PtyErrorKind::OperationFailed(m) && m@ == description@ + " (errno: "@
                + name@ + ")"@,
    {
        let mut m = description.to_string();
        m.append(" (errno: ");
        m.append(name);
        m.append(")");
        PtyErrorKind::OperationFailed(m)
    }

    /// The exception that stands for the error in Python.
    pub fn exception_class(&self) -> (class: ExceptionClass)
        ensures
            class == match self {
                PtyErrorKind::OpenFailed(_) => ExceptionClass::PtyError,
                PtyErrorKind::OperationFailed(_) => ExceptionClass::PtyError,
                PtyErrorKind::Closed => ExceptionClass::PtyError,
                PtyErrorKind::PlatformNotSupported(_) => ExceptionClass::PtyError,
                PtyErrorKind::ForkFailed(_) => ExceptionClass::ProcessError,
                PtyErrorKind::ProcessNotRunning => ExceptionClass::ProcessError,
                PtyErrorKind::InvalidHandle => ExceptionClass::IoError,
                PtyErrorKind::WinsizeFailed(_) => ExceptionClass::IoError,
                PtyErrorKind::BufferOverflow { .. } => ExceptionClass::IoError,
                PtyErrorKind::Timeout(_) => ExceptionClass::IoError,
                PtyErrorKind::Eof => ExceptionClass::EndOfFile,
                PtyErrorKind::SignalError(_) => ExceptionClass::OsError,
                PtyErrorKind::WindowsError(_) => ExceptionClass::OsError,
                PtyErrorKind::AsyncIo(_) => ExceptionClass::BuiltinIoError,
            },
    {
        match self {
            PtyErrorKind::OpenFailed(_)
            | PtyErrorKind::OperationFailed(_)
            | PtyErrorKind::Closed
            | PtyErrorKind::PlatformNotSupported(_) => ExceptionClass::PtyError,
            PtyErrorKind::ForkFailed(_)
            | PtyErrorKind::ProcessNotRunning => ExceptionClass::ProcessError,
            PtyErrorKind::InvalidHandle
            | PtyErrorKind::WinsizeFailed(_)
            | PtyErrorKind::BufferOverflow { .. }
            | PtyErrorKind::Timeout(_) => ExceptionClass::IoError,
            PtyErrorKind::Eof => ExceptionClass::EndOfFile,
            PtyErrorKind::SignalError(_)
            | PtyErrorKind::WindowsError(_) => ExceptionClass::OsError,
            PtyErrorKind::AsyncIo(_) => ExceptionClass::BuiltinIoError,
        }
    }
}

/// A failed input or output operation outside the read path.
impl From<IoFailure> for PtyErrorKind {
    fn from(err: IoFailure) -> (kind: Self) {
        PtyErrorKind::AsyncIo(err.message)
    }
}

impl vstd::std_specs::convert::FromSpecImpl<IoFailure> for PtyErrorKind {
    open spec fn obeys_from_spec() -> bool {
        true
    }

    open spec fn from_spec(err: IoFailure) -> Self {
        PtyErrorKind::AsyncIo(err.message)
    }
}

/// What comes of a read with a deadline.
#[derive(Debug)]
pub enum TimedRead {
    /// The read came first, with so many bytes.
    Read(usize),
    /// The read came first, and failed.
    Failed(IoFailure),
    /// The deadline came first.
    Expired,
}

/// The number of bytes that a read with a deadline of `limit` brought, or its error: that of the
/// failed read, or that the time was up.
pub fn timed_read(platform: Platform, outcome: TimedRead, limit: TimeSpan) -> (r: PtyResult<usize>)
    ensures
        r == match outcome {
            TimedRead::Read(n) => Ok::<usize, PtyErrorKind>(n),
            TimedRead::Failed(e) => Err::<usize, PtyErrorKind>(
                if ends_reading(platform, e.raw_os_error) {
                    PtyErrorKind::Eof
                } else {
                    PtyErrorKind::AsyncIo(e.message)
                },
            ),
            TimedRead::Expired => Err::<usize, PtyErrorKind>(PtyErrorKind::Timeout(limit)),
        },
{
    match outcome {
        TimedRead::Read(n) => Ok(n),
        TimedRead::Failed(e) => Err(PtyErrorKind::from_read_error(platform, e)),
        TimedRead::Expired => Err(PtyErrorKind::Timeout(limit)),
    }
}

/// A read ends in good order with one error number on Unix and with two on Windows, and never
/// without a number.
pub proof fn reading_ends_with_the_childs_side(code: i32)
    ensures
        ends_reading(Platform::Unix, Some(code)) <==> code == 5,
        ends_reading(Platform::Windows, Some(code)) <==> code == 109 || code == 232,
        !ends_reading(Platform::Unix, None),
        !ends_reading(Platform::Windows, None),
{
}

} // verus!
