use stitch_pty::errors::{
    is_broken_pipe, is_eof_error, timed_read, timeout_message, unix_read, ExceptionClass,
    IoFailure, Platform, PtyErrorKind, PtyResult, TimeSpan, TimedRead,
};

fn failure(err: &std::io::Error) -> IoFailure {
    IoFailure { raw_os_error: err.raw_os_error(), message: err.to_string() }
}

#[test]
fn test_error_display_open_failed() {
    let err = PtyErrorKind::OpenFailed("device busy".to_string());
    assert_eq!(err.to_string(), "PTY open failed: device busy");
}

#[test]
fn test_error_display_operation_failed() {
    let err = PtyErrorKind::OperationFailed("read error".to_string());
    assert_eq!(err.to_string(), "PTY operation failed: read error");
}

#[test]
fn test_error_display_fork_failed() {
    let err = PtyErrorKind::ForkFailed("no memory".to_string());
    assert_eq!(err.to_string(), "Process spawn failed: no memory");
}

#[test]
fn test_error_display_process_not_running() {
    let err = PtyErrorKind::ProcessNotRunning;
    assert_eq!(err.to_string(), "Process not running");
}

#[test]
fn test_error_display_invalid_handle() {
    let err = PtyErrorKind::InvalidHandle;
    assert_eq!(err.to_string(), "Invalid handle/FD");
}

#[test]
fn test_error_display_winsize_failed() {
    let err = PtyErrorKind::WinsizeFailed("ioctl failed".to_string());
    assert_eq!(err.to_string(), "Window size operation failed: ioctl failed");
}

#[test]
fn test_error_display_signal_error() {
    let err = PtyErrorKind::SignalError("bad signal".to_string());
    assert_eq!(err.to_string(), "Signal handling error: bad signal");
}

#[test]
fn test_error_display_async_io() {
    let err = PtyErrorKind::AsyncIo("connection reset".to_string());
    assert_eq!(err.to_string(), "Async I/O error: connection reset");
}

#[test]
fn test_error_display_buffer_overflow() {
    let err = PtyErrorKind::BufferOverflow { requested: 1024, max: 512 };
    assert_eq!(err.to_string(), "Buffer overflow: requested 1024, max 512");
}

#[test]
fn test_error_display_closed() {
    let err = PtyErrorKind::Closed;
    assert_eq!(err.to_string(), "PTY is closed");
}

#[test]
fn test_error_display_timeout() {
    let err = PtyErrorKind::Timeout(TimeSpan::from_secs(5));
    assert!(err.to_string().contains("5s"));
}

#[test]
fn test_error_display_platform_not_supported() {
    let err = PtyErrorKind::PlatformNotSupported("darwin arm64".to_string());
    assert_eq!(err.to_string(), "Platform not supported: darwin arm64");
}

#[test]
fn test_error_display_windows_error() {
    let err = PtyErrorKind::WindowsError("test error".to_string());
    assert_eq!(err.to_string(), "Windows API error: test error");
}

#[test]
fn test_io_error_from_std_io_error() {
    let std_err = std::io::Error::new(std::io::ErrorKind::ConnectionRefused, "refused");
    let pty_err: PtyErrorKind = PtyErrorKind::from(failure(&std_err));
    match pty_err {
        PtyErrorKind::AsyncIo(msg) => assert!(msg.contains("refused")),
        _ => panic!("expected AsyncIo"),
    }
}

#[test]
fn test_result_type_alias() {
    let ok: PtyResult<i32> = Ok(42);
    assert_eq!(ok.unwrap(), 42);
}

#[test]
fn test_error_display_eof() {
    assert_eq!(PtyErrorKind::Eof.to_string(), "PTY EOF: child side closed");
}

#[test]
fn test_from_read_error_eio_is_eof() {
    let eio = failure(&std::io::Error::from_raw_os_error(libc::EIO));
    assert!(is_eof_error(Platform::Unix, &eio));
    assert_eq!(PtyErrorKind::from_read_error(Platform::Unix, eio), PtyErrorKind::Eof);
}

#[test]
fn test_from_read_error_other_is_async_io() {
    let other = failure(&std::io::Error::new(std::io::ErrorKind::ConnectionRefused, "refused"));
    assert!(!is_eof_error(Platform::Unix, &other));
    match PtyErrorKind::from_read_error(Platform::Unix, other) {
        PtyErrorKind::AsyncIo(msg) => assert!(msg.contains("refused")),
        _ => panic!("expected AsyncIo"),
    }
}

#[test]
fn test_eof_maps_to_oserror_with_kind_attr() {
    assert_eq!(PtyErrorKind::Eof.exception_class(), ExceptionClass::EndOfFile);
}

#[test]
fn test_error_kind_timeout_display() {
    let err = PtyErrorKind::Timeout(TimeSpan::from_secs(5));
    assert!(err.to_string().contains("5s"));
}

#[test]
fn test_error_kind_async_io_display() {
    let err = PtyErrorKind::AsyncIo("test error".to_string());
    assert_eq!(err.to_string(), "Async I/O error: test error");
}

#[test]
fn a_timeout_says_how_long_it_was() {
    let err = PtyErrorKind::Timeout(TimeSpan::from_millis(1500));
    assert_eq!(err.to_string(), "Timeout after 1.5s");
    let err = PtyErrorKind::Timeout(TimeSpan { secs: 0, nanos: 50_000_000 });
    assert_eq!(err.to_string(), "Timeout after 50ms");
    assert_eq!(timeout_message("2ns"), "Timeout after 2ns");
    assert_eq!(TimeSpan::from_millis(2750), TimeSpan { secs: 2, nanos: 750_000_000 });
}

#[test]
fn windows_pipes_end_with_two_codes() {
    let coded = |code: i32| IoFailure { raw_os_error: Some(code), message: "gone".to_string() };
    assert!(is_eof_error(Platform::Windows, &coded(109)));
    assert!(is_eof_error(Platform::Windows, &coded(232)));
    assert!(!is_eof_error(Platform::Windows, &coded(5)));
    assert!(!is_eof_error(Platform::Unix, &coded(109)));
    assert_eq!(
        PtyErrorKind::from_read_error(Platform::Windows, coded(5)),
        PtyErrorKind::AsyncIo("gone".to_string())
    );
}

#[test]
fn a_unix_master_without_a_child_reads_nothing() {
    let coded = |code: i32| IoFailure { raw_os_error: Some(code), message: "x".to_string() };
    assert_eq!(unix_read(Ok(7)), Ok(7));
    assert_eq!(unix_read(Err(coded(5))), Ok(0));
    assert_eq!(unix_read(Err(coded(9))), Err(coded(9)));
    assert!(is_broken_pipe(&coded(5)));
    assert!(!is_broken_pipe(&coded(9)));
    assert!(!is_broken_pipe(&IoFailure { raw_os_error: None, message: String::new() }));
}

#[test]
fn a_read_with_a_deadline_has_three_outcomes() {
    let limit = TimeSpan::from_millis(50);
    assert_eq!(timed_read(Platform::Unix, TimedRead::Read(5), limit), Ok(5));
    assert_eq!(
        timed_read(Platform::Unix, TimedRead::Expired, limit),
        Err(PtyErrorKind::Timeout(limit))
    );
    let failed = IoFailure { raw_os_error: None, message: "refused".to_string() };
    assert_eq!(
        timed_read(Platform::Unix, TimedRead::Failed(failed), limit),
        Err(PtyErrorKind::AsyncIo("refused".to_string()))
    );
    let gone = IoFailure { raw_os_error: Some(5), message: "gone".to_string() };
    assert_eq!(
        timed_read(Platform::Unix, TimedRead::Failed(gone), limit),
        Err(PtyErrorKind::Eof)
    );
}

#[test]
fn every_error_has_its_exception() {
    let text = || "x".to_string();
    let span = TimeSpan::from_secs(1);
    let classes = [
        (PtyErrorKind::OpenFailed(text()), ExceptionClass::PtyError),
        (PtyErrorKind::OperationFailed(text()), ExceptionClass::PtyError),
        (PtyErrorKind::Closed, ExceptionClass::PtyError),
        (PtyErrorKind::PlatformNotSupported(text()), ExceptionClass::PtyError),
        (PtyErrorKind::ForkFailed(text()), ExceptionClass::ProcessError),
        (PtyErrorKind::ProcessNotRunning, ExceptionClass::ProcessError),
        (PtyErrorKind::InvalidHandle, ExceptionClass::IoError),
        (PtyErrorKind::WinsizeFailed(text()), ExceptionClass::IoError),
        (PtyErrorKind::BufferOverflow { requested: 2, max: 1 }, ExceptionClass::IoError),
        (PtyErrorKind::Timeout(span), ExceptionClass::IoError),
        (PtyErrorKind::SignalError(text()), ExceptionClass::OsError),
        (PtyErrorKind::WindowsError(text()), ExceptionClass::OsError),
        (PtyErrorKind::AsyncIo(text()), ExceptionClass::BuiltinIoError),
    ];
    for (err, class) in classes {
        assert_eq!(err.exception_class(), class);
    }
}

#[test]
fn a_failed_call_names_its_error_number() {
    assert_eq!(
        PtyErrorKind::from_errno("Bad file number", "EBADF"),
        PtyErrorKind::OperationFailed("Bad file number (errno: EBADF)".to_string())
    );
}
