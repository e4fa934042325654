//! Decoding of native callback notifications into the machines' events.
//!
//! The native stack invokes a registered callback on its own threads with a
//! numeric status code; the callback's only jobs are to decode that code,
//! deposit the decoded event where the polling side can see it, and wake the
//! pending poll. The decoding itself is pure and lives here; a decoded
//! `Suppressed` event means the notification is swallowed without a wake, as
//! a deliberately cancelled operation must not surface as an error.

use vstd::prelude::*;

use crate::err_code::{kind_of_code, resolve_io_error_from_error_code, NativeError};
use crate::err_code::ERR_OPERATION_CANCELLED;

verus! {

// Status codes of the native HTTP engine's callback, as its headers define
// them.
pub const STATUS_SENDREQUEST_COMPLETE: u32 = 4194304;

pub const STATUS_WRITE_COMPLETE: u32 = 1048576;

pub const STATUS_HEADERS_AVAILABLE: u32 = 131072;

pub const STATUS_RECEIVING_RESPONSE: u32 = 64;

pub const STATUS_RESPONSE_RECEIVED: u32 = 128;

pub const STATUS_CONNECTION_CLOSED: u32 = 512;

pub const STATUS_DATA_AVAILABLE: u32 = 262144;

pub const STATUS_READ_COMPLETE: u32 = 524288;

pub const STATUS_REQUEST_ERROR: u32 = 2097152;

/// The code accompanying a failed native query whose only meaning is "ask
/// again with a larger buffer".
pub const ERR_INSUFFICIENT_BUFFER: u32 = 122;

/// The closed set of events the bridge forwards to the polling side.
#[derive(Clone, Copy, Debug, PartialEq, Eq, Structural)]
pub enum CallbackEvent {
    /// The native send or write finished; the next body chunk may go out.
    WriteCompleted,
    /// The response head is ready to be queried.
    HeadersAvailable,
    /// Response data is ready to be read.
    DataAvailable,
    /// A native read finished, delivering this many bytes; zero means end
    /// of stream.
    ReadComplete(u32),
    /// The native stack reported this failure.
    RequestError(NativeError),
    /// Progress with nothing to deposit: wake the poll and no more.
    WakeOnly,
    /// A deliberate cancellation: swallowed, no wake, no error.
    Suppressed,
}

/// The event each native notification decodes to. A cancelled-operation
/// error is suppressed; every unrecognised notification only wakes.
pub open spec fn decoded_event(status: u32, info_len: u32, error_code: u32) -> CallbackEvent {
    if status == STATUS_SENDREQUEST_COMPLETE || status == STATUS_WRITE_COMPLETE {
        CallbackEvent::WriteCompleted
    } else if status == STATUS_HEADERS_AVAILABLE {
        CallbackEvent::HeadersAvailable
    } else if status == STATUS_DATA_AVAILABLE {
        CallbackEvent::DataAvailable
    } else if status == STATUS_READ_COMPLETE {
        CallbackEvent::ReadComplete(info_len)
    } else if status == STATUS_REQUEST_ERROR {
        if error_code == ERR_OPERATION_CANCELLED {
            CallbackEvent::Suppressed
        } else {
            CallbackEvent::RequestError(
                NativeError { kind: kind_of_code(error_code), code: error_code },
            )
        }
    } else {
        CallbackEvent::WakeOnly
    }
}

/// Decodes one native notification. `info_len` is the byte count attached
/// to a completed read; `error_code` the code attached to a failure; both
/// are ignored for notifications that carry neither.
pub fn decode_callback_status(status: u32, info_len: u32, error_code: u32) -> (r: CallbackEvent)
    ensures
        r == decoded_event(status, info_len, error_code),
{
    if status == STATUS_SENDREQUEST_COMPLETE || status == STATUS_WRITE_COMPLETE {
        CallbackEvent::WriteCompleted
    } else if status == STATUS_HEADERS_AVAILABLE {
        CallbackEvent::HeadersAvailable
    } else if status == STATUS_DATA_AVAILABLE {
        CallbackEvent::DataAvailable
    } else if status == STATUS_READ_COMPLETE {
        CallbackEvent::ReadComplete(info_len)
    } else if status == STATUS_REQUEST_ERROR {
        if error_code == ERR_OPERATION_CANCELLED {
            CallbackEvent::Suppressed
        } else {
            CallbackEvent::RequestError(resolve_io_error_from_error_code(error_code))
        }
    } else {
        CallbackEvent::WakeOnly
    }
}

/// Whether a decoded event wakes the pending poll: every event does except
/// a suppressed cancellation.
pub open spec fn event_wakes(ev: CallbackEvent) -> bool {
    ev != CallbackEvent::Suppressed
}

/// The native raw-header query is a two-pass protocol: the first pass asks
/// only for the needed size and is expected to fail with the
/// buffer-too-small code. That failure is benign; any other failure of the
/// first pass is fatal.
pub fn header_query_first_pass_ok(succeeded: bool, error_code: u32) -> (r: bool)
    ensures
        r <==> (succeeded || error_code == ERR_INSUFFICIENT_BUFFER),
{
    succeeded || error_code == ERR_INSUFFICIENT_BUFFER
}

// Event codes of the stream-pair native API, as its headers define them.
pub const STREAM_EVENT_OPEN_COMPLETED: u64 = 1;

pub const STREAM_EVENT_HAS_BYTES_AVAILABLE: u64 = 2;

pub const STREAM_EVENT_CAN_ACCEPT_BYTES: u64 = 4;

pub const STREAM_EVENT_ERROR_OCCURRED: u64 = 8;

pub const STREAM_EVENT_END_ENCOUNTERED: u64 = 16;

/// The closed set of events a stream-pair backend's callback sees.
#[derive(Clone, Copy, Debug, PartialEq, Eq, Structural)]
pub enum StreamEvent {
    OpenCompleted,
    HasBytesAvailable,
    CanAcceptBytes,
    ErrorOccurred,
    EndEncountered,
    Other,
}

pub open spec fn decoded_stream_event(code: u64) -> StreamEvent {
    if code == STREAM_EVENT_OPEN_COMPLETED {
        StreamEvent::OpenCompleted
    } else if code == STREAM_EVENT_HAS_BYTES_AVAILABLE {
        StreamEvent::HasBytesAvailable
    } else if code == STREAM_EVENT_CAN_ACCEPT_BYTES {
        StreamEvent::CanAcceptBytes
    } else if code == STREAM_EVENT_ERROR_OCCURRED {
        StreamEvent::ErrorOccurred
    } else if code == STREAM_EVENT_END_ENCOUNTERED {
        StreamEvent::EndEncountered
    } else {
        StreamEvent::Other
    }
}

/// Decodes one stream-pair notification.
pub fn decode_stream_event(code: u64) -> (r: StreamEvent)
    ensures
        r == decoded_stream_event(code),
{
    if code == STREAM_EVENT_OPEN_COMPLETED {
        StreamEvent::OpenCompleted
    } else if code == STREAM_EVENT_HAS_BYTES_AVAILABLE {
        StreamEvent::HasBytesAvailable
    } else if code == STREAM_EVENT_CAN_ACCEPT_BYTES {
        StreamEvent::CanAcceptBytes
    } else if code == STREAM_EVENT_ERROR_OCCURRED {
        StreamEvent::ErrorOccurred
    } else if code == STREAM_EVENT_END_ENCOUNTERED {
        StreamEvent::EndEncountered
    } else {
        StreamEvent::Other
    }
}

} // verus!
