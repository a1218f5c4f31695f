use vstd::prelude::*;

use crate::{Error, IoFailure, IoKind};

verus! {

/// High-level reason for a serial transport failure.
#[derive(Debug, Clone, Copy, PartialEq, Eq, Structural)]
pub enum SerialFailureKind {
    PermissionDenied,
    DeviceMissing,
    Disconnected,
    Timeout,
    Framing,
    Busy,
    Config,
    Unknown,
}

pub open spec fn failure_name(k: SerialFailureKind) -> Seq<char> {
    match k {
        SerialFailureKind::PermissionDenied => "permission_denied"@,
        SerialFailureKind::DeviceMissing => "device_missing"@,
        SerialFailureKind::Disconnected => "disconnected"@,
        SerialFailureKind::Timeout => "timeout"@,
        SerialFailureKind::Framing => "framing"@,
        SerialFailureKind::Busy => "busy"@,
        SerialFailureKind::Config => "config"@,
        SerialFailureKind::Unknown => "unknown"@,
    }
}

impl SerialFailureKind {
    /// The snake_case label used in logs and telemetry.
    pub fn as_str(&self) -> (r: &'static str)
        ensures
            r@ == failure_name(*self),
    {
        match self {
            SerialFailureKind::PermissionDenied => "permission_denied",
            SerialFailureKind::DeviceMissing => "device_missing",
            SerialFailureKind::Disconnected => "disconnected",
            SerialFailureKind::Timeout => "timeout",
            SerialFailureKind::Framing => "framing",
            SerialFailureKind::Busy => "busy",
            SerialFailureKind::Config => "config",
            SerialFailureKind::Unknown => "unknown",
        }
    }
}

/// Failure reason for an OS error code that carries no more specific kind.
pub open spec fn os_code_failure(code: Option<i32>) -> SerialFailureKind {
    match code {
        Some(13) => SerialFailureKind::PermissionDenied,
        Some(16) => SerialFailureKind::Busy,
        Some(19) => SerialFailureKind::DeviceMissing,
        Some(6) => SerialFailureKind::DeviceMissing,
        Some(5) => SerialFailureKind::Disconnected,
        Some(110) => SerialFailureKind::Timeout,
        _ => SerialFailureKind::Unknown,
    }
}

pub open spec fn io_failure_kind(err: IoFailure) -> SerialFailureKind {
    match err.kind {
        IoKind::PermissionDenied => SerialFailureKind::PermissionDenied,
        IoKind::NotFound => SerialFailureKind::DeviceMissing,
        IoKind::TimedOut | IoKind::WouldBlock => SerialFailureKind::Timeout,
        IoKind::BrokenPipe | IoKind::ConnectionReset | IoKind::ConnectionAborted =>
            SerialFailureKind::Disconnected,
        IoKind::InvalidInput => SerialFailureKind::Config,
        IoKind::InvalidData => SerialFailureKind::Framing,
        IoKind::Other => os_code_failure(err.raw_os_error),
    }
}

pub open spec fn error_failure_kind(err: Error) -> SerialFailureKind {
    match err {
        Error::InvalidArgs(_) => SerialFailureKind::Config,
        Error::Io(f) => io_failure_kind(f),
        Error::Parse(_) | Error::ChecksumMismatch => SerialFailureKind::Framing,
    }
}

/// Classify a crate-level error into a serial failure reason.
pub fn classify_error(err: &Error) -> (r: SerialFailureKind)
    ensures
        r == error_failure_kind(*err),
{
    match err {
        Error::InvalidArgs(_) => SerialFailureKind::Config,
        Error::Io(io_err) => classify_io_error(io_err),
        Error::Parse(_) | Error::ChecksumMismatch => SerialFailureKind::Framing,
    }
}

/// Classify an I/O failure into a serial failure reason.
pub fn classify_io_error(err: &IoFailure) -> (r: SerialFailureKind)
    ensures
        r == io_failure_kind(*err),
{
    match err.kind {
        IoKind::PermissionDenied => SerialFailureKind::PermissionDenied,
        IoKind::NotFound => SerialFailureKind::DeviceMissing,
        IoKind::TimedOut | IoKind::WouldBlock => SerialFailureKind::Timeout,
        IoKind::BrokenPipe | IoKind::ConnectionReset | IoKind::ConnectionAborted => {
            SerialFailureKind::Disconnected
        },
        IoKind::InvalidInput => SerialFailureKind::Config,
        IoKind::InvalidData => SerialFailureKind::Framing,
        IoKind::Other => match err.raw_os_error {
            Some(code) => {
                if code == 13 {
                    SerialFailureKind::PermissionDenied
                } else if code == 16 {
                    SerialFailureKind::Busy
                } else if code == 19 || code == 6 {
                    SerialFailureKind::DeviceMissing
                } else if code == 5 {
                    SerialFailureKind::Disconnected
                } else if code == 110 {
                    SerialFailureKind::Timeout
                } else {
                    SerialFailureKind::Unknown
                }
            },
            None => SerialFailureKind::Unknown,
        },
    }
}

} // verus!
