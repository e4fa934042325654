//! Core logic of an async HTTP client that rides on a native transport stack.
//!
//! The operating system's networking engine speaks the wire protocol and
//! delivers progress through callbacks; this crate holds the parts that are
//! worth proving: the request and response state machines, the transfer
//! buffer, header parsing, the connection cache and the error-code mapper.
//! The thin layer that owns native handles and wakers lives outside and
//! drives these machines with plain values.

pub mod bridge;
pub mod cache;
pub mod client;
pub mod err_code;
pub mod handle;
pub mod headers;
pub mod method;
pub mod prelude;
pub mod recv;
pub mod response;
pub mod rwbuf;
pub mod send;
pub mod url;

use vstd::prelude::*;

verus! {

/// The entry point callers start from: a builder for one client.
pub fn get_client_builder() -> (r: client::ClientBuilder)
    ensures
        r == (client::ClientBuilder {  }),
{
    client::ClientBuilder {  }
}

} // verus!
