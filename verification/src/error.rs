//! Error types exposed by the library.

use vstd::prelude::*;

use crate::text::{append, owned};

verus! {

/// Category of a local IPC failure, as reported by the transport.
#[derive(Clone, Copy, Debug, PartialEq, Eq, Structural)]
pub enum IoErrorKind {
    /// The endpoint does not exist.
    NotFound,
    /// The endpoint refused the connection.
    ConnectionRefused,
    /// The endpoint reset the connection.
    ConnectionReset,
    /// Local IPC is unsupported on this platform.
    Unsupported,
    /// The caller lacks the permission.
    PermissionDenied,
    /// Any other failure.
    Other,
}

/// Errors produced by configuration, IPC, and daemon operations.
#[derive(Clone, Debug, PartialEq, Eq)]
pub enum Error {
    /// A configuration document could not be decoded.
    Decode {
        /// Human-readable format name.
        format: String,
        /// Parser diagnostic.
        message: String,
    },
    /// A decoded configuration violates semantic constraints.
    Validation(String),
    /// An IPC frame is malformed or violates the protocol.
    Protocol(String),
    /// Local IPC failed.
    Io {
        /// Failure category.
        kind: IoErrorKind,
        /// Diagnostic text of the underlying failure.
        message: String,
    },
    /// The daemon rejected a request.
    Daemon(String),
}

/// The human-readable rendering of an error.
pub open spec fn error_message(e: Error) -> Seq<char> {
    match e {
        Error::Decode { format, message } => "invalid "@ + format@ + " configuration: "@
            + message@,
        Error::Validation(m) => "configuration validation failed: "@ + m@,
        Error::Protocol(m) => "invalid IPC frame: "@ + m@,
        Error::Io { message, .. } => "IPC I/O failed: "@ + message@,
        Error::Daemon(m) => "daemon error: "@ + m@,
    }
}

impl Error {
    /// Renders the error as text, in the form its kind prescribes.
    pub fn message(&self) -> (r: String)
        ensures
            r@ == error_message(*self),
    {
        match self {
            Error::Decode { format, message } => {
                let mut r = owned("invalid ");
                append(&mut r, format.as_str());
                append(&mut r, " configuration: ");
                append(&mut r, message.as_str());
                r
            },
            Error::Validation(m) => {
                let mut r = owned("configuration validation failed: ");
                append(&mut r, m.as_str());
                r
            },
            Error::Protocol(m) => {
                let mut r = owned("invalid IPC frame: ");
                append(&mut r, m.as_str());
                r
            },
            Error::Io { message, .. } => {
                let mut r = owned("IPC I/O failed: ");
                append(&mut r, message.as_str());
                r
            },
            Error::Daemon(m) => {
                let mut r = owned("daemon error: ");
                append(&mut r, m.as_str());
                r
            },
        }
    }
}

/// Whether a failed call means that no daemon listens on the endpoint: the
/// endpoint is missing, refused the connection or reset it.
pub fn is_endpoint_absent(error: &Error) -> (r: bool)
    ensures
        r == (error matches Error::Io { kind, .. } && (kind == IoErrorKind::NotFound || kind
            == IoErrorKind::ConnectionRefused || kind == IoErrorKind::ConnectionReset)),
{
    match error {
        Error::Io { kind, .. } => match kind {
            IoErrorKind::NotFound => true,
            IoErrorKind::ConnectionRefused => true,
            IoErrorKind::ConnectionReset => true,
            _ => false,
        },
        _ => false,
    }
}

/// C ABI status: success.
pub const NETPLAN_OK: i32 = 0;

/// C ABI status: a pointer, length, UTF-8 string, or other argument was invalid.
pub const NETPLAN_INVALID_ARGUMENT: i32 = 1;

/// C ABI status: a frame failed protocol verification.
pub const NETPLAN_PROTOCOL_ERROR: i32 = 2;

/// C ABI status: local IPC failed.
pub const NETPLAN_IO_ERROR: i32 = 3;

/// C ABI status: the daemon rejected a request.
pub const NETPLAN_DAEMON_ERROR: i32 = 4;

/// C ABI status: runtime initialization or synchronization failed.
pub const NETPLAN_INTERNAL_ERROR: i32 = 5;

/// The C ABI status of an error.
pub fn status_for_error(error: &Error) -> (r: i32)
    ensures
        r == match error {
            Error::Protocol(_) => NETPLAN_PROTOCOL_ERROR,
            Error::Io { .. } => NETPLAN_IO_ERROR,
            Error::Daemon(_) => NETPLAN_DAEMON_ERROR,
            Error::Decode { .. } => NETPLAN_INVALID_ARGUMENT,
            Error::Validation(_) => NETPLAN_INVALID_ARGUMENT,
        },
{
    match error {
        Error::Protocol(_) => NETPLAN_PROTOCOL_ERROR,
        Error::Io { .. } => NETPLAN_IO_ERROR,
        Error::Daemon(_) => NETPLAN_DAEMON_ERROR,
        Error::Decode { .. } => NETPLAN_INVALID_ARGUMENT,
        Error::Validation(_) => NETPLAN_INVALID_ARGUMENT,
    }
}

} // verus!
