use vstd::prelude::*;
use crate::text::{decimal, decimal_spec};

verus! {

/// The failures that device operations report.
#[derive(Debug, Clone, PartialEq, Eq)]
pub enum ADBError {
    /// A command could not be run, or exited with a failure.
    CommandError(String),
    /// Talking to a device failed.
    DeviceError(String),
    /// A local or remote file operation failed.
    FileError(String),
    /// The configuration is not usable.
    ConfigError(String),
    /// The deadline elapsed before the operation finished; `duration` is the
    /// deadline in milliseconds.
    TimeoutError { message: String, duration: u64 },
    /// No device with the given id.
    DeviceNotFound(String),
    /// No application with the given name.
    AppNotFound(String),
    /// The device refused the operation.
    PermissionDenied(String),
    /// A connection could not be made.
    ConnectionError(String),
    /// Output could not be understood.
    ParseError(String),
    /// Anything else.
    UnknownError(String),
}

/// The outcome of a device operation.
pub type ADBResult<T> = Result<T, ADBError>;

/// The human-readable text of an error.
pub open spec fn error_text(e: ADBError) -> Seq<char> {
    match e {
        ADBError::CommandError(m) => "command error: "@ + m@,
        ADBError::DeviceError(m) => "device error: "@ + m@,
        ADBError::FileError(m) => "file error: "@ + m@,
        ADBError::ConfigError(m) => "configuration error: "@ + m@,
        ADBError::TimeoutError { message, duration } => "timed out after "@ + decimal_spec(
            duration as nat,
        ) + "ms: "@ + message@,
        ADBError::DeviceNotFound(m) => "device not found: "@ + m@,
        ADBError::AppNotFound(m) => "app not found: "@ + m@,
        ADBError::PermissionDenied(m) => "permission denied: "@ + m@,
        ADBError::ConnectionError(m) => "connection error: "@ + m@,
        ADBError::ParseError(m) => "parse error: "@ + m@,
        ADBError::UnknownError(m) => "unknown error: "@ + m@,
    }
}

impl ADBError {
    /// The human-readable text of this error.
    pub fn to_string(&self) -> (r: String)
        ensures
            r@ == error_text(*self),
    {
        match self {
            ADBError::CommandError(m) => String::from_str("command error: ").concat(m.as_str()),
            ADBError::DeviceError(m) => String::from_str("device error: ").concat(m.as_str()),
            ADBError::FileError(m) => String::from_str("file error: ").concat(m.as_str()),
            ADBError::ConfigError(m) => String::from_str("configuration error: ").concat(
                m.as_str(),
            ),
            ADBError::TimeoutError { message, duration } => {
                let mut s = String::from_str("timed out after ");
                let d = decimal(*duration);
                s.append(d.as_str());
                s.append("ms: ");
                s.append(message.as_str());
                s
            },
            ADBError::DeviceNotFound(m) => String::from_str("device not found: ").concat(
                m.as_str(),
            ),
            ADBError::AppNotFound(m) => String::from_str("app not found: ").concat(m.as_str()),
            ADBError::PermissionDenied(m) => String::from_str("permission denied: ").concat(
                m.as_str(),
            ),
            ADBError::ConnectionError(m) => String::from_str("connection error: ").concat(
                m.as_str(),
            ),
            ADBError::ParseError(m) => String::from_str("parse error: ").concat(m.as_str()),
            ADBError::UnknownError(m) => String::from_str("unknown error: ").concat(m.as_str()),
        }
    }
}

} // verus!
