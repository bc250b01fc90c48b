//! The error taxonomy every gateway operation reports its failures in.

use vstd::prelude::*;

verus! {

/// The category of a gateway failure. Callers branch on the kind; the
/// accompanying message is diagnostic text only.
#[derive(Clone, Copy, Debug, PartialEq, Eq, Structural)]
pub enum ErrorKind {
    /// The request was malformed (an empty path) and no filesystem state
    /// was consulted or changed.
    InvalidArgument,
    /// The path does not exist.
    NotFound,
    /// The operating system denied access to the path.
    PermissionDenied,
    /// The path already exists where a fresh one was required. Kept for
    /// completeness of the taxonomy: directory creation is idempotent and
    /// writes overwrite, so the gateway itself never reports it.
    AlreadyExists,
    /// The file's bytes are not valid text under the expected encoding.
    EncodingError,
    /// Any other operating-system or device failure.
    IOError,
}

/// A failed gateway operation: its category plus human-readable detail.
/// The message is opaque to callers; only the kind is machine-readable.
#[derive(Clone, Debug)]
pub struct GatewayError {
    pub kind: ErrorKind,
    pub message: String,
}

/// The coarse classes of operating-system error a host can observe when it
/// performs the actual filesystem call. The host maps the OS error to one
/// of these plain values and hands it to [`classify_os_error`].
#[derive(Clone, Copy, Debug, PartialEq, Eq, Structural)]
pub enum OsErrorClass {
    NotFound,
    PermissionDenied,
    AlreadyExists,
    InvalidData,
    Other,
}

/// The error kind each class of OS error is reported as.
pub open spec fn kind_of_class(class: OsErrorClass) -> ErrorKind {
    match class {
        OsErrorClass::NotFound => ErrorKind::NotFound,
        OsErrorClass::PermissionDenied => ErrorKind::PermissionDenied,
        OsErrorClass::AlreadyExists => ErrorKind::AlreadyExists,
        OsErrorClass::InvalidData => ErrorKind::EncodingError,
        OsErrorClass::Other => ErrorKind::IOError,
    }
}

/// Turns an operating-system error, already reduced to its class and its
/// text, into the gateway's structured error value.
pub fn classify_os_error(class: OsErrorClass, message: String) -> (e: GatewayError)
    ensures
        e.kind == kind_of_class(class),
        e.message == message,
{
    let kind = match class {
        OsErrorClass::NotFound => ErrorKind::NotFound,
        OsErrorClass::PermissionDenied => ErrorKind::PermissionDenied,
        OsErrorClass::AlreadyExists => ErrorKind::AlreadyExists,
        OsErrorClass::InvalidData => ErrorKind::EncodingError,
        OsErrorClass::Other => ErrorKind::IOError,
    };
    GatewayError { kind, message }
}

} // verus!
