//! Maps numeric error codes of the native HTTP engine onto a small closed
//! taxonomy of I/O error kinds.
//!
//! The native stack reports failures as bare numbers; the bridge funnels every
//! failure through this mapper, so the mapping must be total: a code nobody
//! recognises still yields `Other` and keeps the number for diagnostics.

use vstd::prelude::*;

verus! {

/// The semantic error classes a caller can react to.
#[derive(Clone, Copy, Debug, PartialEq, Eq, Structural)]
pub enum IoErrorKind {
    NotConnected,
    ConnectionAborted,
    TimedOut,
    OutOfMemory,
    InvalidInput,
    InvalidData,
    NotFound,
    Other,
}

/// A failure reported by the native transport: its semantic kind plus the
/// raw numeric code it came from.
#[derive(Clone, Copy, Debug, PartialEq, Eq, Structural)]
pub struct NativeError {
    pub kind: IoErrorKind,
    pub code: u32,
}

pub const ERR_CANNOT_CONNECT: u32 = 12029;
pub const ERR_CONNECTION_ERROR: u32 = 12030;
pub const ERR_TIMEOUT: u32 = 12002;
pub const ERR_CHUNKED_HEADER_OVERFLOW: u32 = 12183;
pub const ERR_HEADER_SIZE_OVERFLOW: u32 = 12182;
pub const ERR_RESPONSE_DRAIN_OVERFLOW: u32 = 12184;
pub const ERR_INVALID_OPTION: u32 = 12009;
pub const ERR_INVALID_URL: u32 = 12005;
pub const ERR_INVALID_HEADER: u32 = 12153;
pub const ERR_HEADER_NOT_FOUND: u32 = 12150;
pub const ERR_OPERATION_CANCELLED: u32 = 12017;

/// The kind every native code resolves to. Codes outside the recognised
/// table fall through to `Other`; none is rejected.
pub open spec fn kind_of_code(code: u32) -> IoErrorKind {
    if code == ERR_CANNOT_CONNECT {
        IoErrorKind::NotConnected
    } else if code == ERR_CONNECTION_ERROR {
        IoErrorKind::ConnectionAborted
    } else if code == ERR_TIMEOUT {
        IoErrorKind::TimedOut
    } else if code == ERR_CHUNKED_HEADER_OVERFLOW || code == ERR_HEADER_SIZE_OVERFLOW
        || code == ERR_RESPONSE_DRAIN_OVERFLOW {
        IoErrorKind::OutOfMemory
    } else if code == ERR_INVALID_OPTION || code == ERR_INVALID_URL {
        IoErrorKind::InvalidInput
    } else if code == ERR_INVALID_HEADER {
        IoErrorKind::InvalidData
    } else if code == ERR_HEADER_NOT_FOUND {
        IoErrorKind::NotFound
    } else {
        IoErrorKind::Other
    }
}

/// Resolves a native error code to its semantic kind, keeping the code.
/// Total over all of `u32`: an unrecognised code maps to `Other`.
pub fn resolve_io_error_from_error_code(code: u32) -> (r: NativeError)
    ensures
        r.kind == kind_of_code(code),
        r.code == code,
{
    let kind = if code == ERR_CANNOT_CONNECT {
        IoErrorKind::NotConnected
    } else if code == ERR_CONNECTION_ERROR {
        IoErrorKind::ConnectionAborted
    } else if code == ERR_TIMEOUT {
        IoErrorKind::TimedOut
    } else if code == ERR_CHUNKED_HEADER_OVERFLOW || code == ERR_HEADER_SIZE_OVERFLOW
        || code == ERR_RESPONSE_DRAIN_OVERFLOW {
        IoErrorKind::OutOfMemory
    } else if code == ERR_INVALID_OPTION || code == ERR_INVALID_URL {
        IoErrorKind::InvalidInput
    } else if code == ERR_INVALID_HEADER {
        IoErrorKind::InvalidData
    } else if code == ERR_HEADER_NOT_FOUND {
        IoErrorKind::NotFound
    } else {
        IoErrorKind::Other
    };
    NativeError { kind, code }
}

} // verus!
