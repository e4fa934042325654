//! The traits every backend's client, builder and request have in common,
//! and the convenience methods layered on them.

use vstd::prelude::*;

use crate::client::{Client, ClientBuilder, RequestHead};
use crate::err_code::NativeError;
use crate::method::Method;

verus! {

/// A client that can start requests.
pub trait CommonClient {
    type ClientRequest;

    /// Prepares a request for a method and URL, or rejects the URL.
    fn request(&self, method: Method, url: &[u8]) -> Result<Self::ClientRequest, NativeError>;
}

/// Convenience starters, one per method, over any client.
pub trait CommonClientExt: CommonClient {
    fn get(&self, url: &[u8]) -> Result<Self::ClientRequest, NativeError> {
        self.request(Method::GET, url)
    }

    fn post(&self, url: &[u8]) -> Result<Self::ClientRequest, NativeError> {
        self.request(Method::POST, url)
    }

    fn put(&self, url: &[u8]) -> Result<Self::ClientRequest, NativeError> {
        self.request(Method::PUT, url)
    }

    fn delete(&self, url: &[u8]) -> Result<Self::ClientRequest, NativeError> {
        self.request(Method::DELETE, url)
    }

    fn head(&self, url: &[u8]) -> Result<Self::ClientRequest, NativeError> {
        self.request(Method::HEAD, url)
    }

    fn patch(&self, url: &[u8]) -> Result<Self::ClientRequest, NativeError> {
        self.request(Method::PATCH, url)
    }

    fn options(&self, url: &[u8]) -> Result<Self::ClientRequest, NativeError> {
        self.request(Method::OPTIONS, url)
    }
}

impl<C: CommonClient> CommonClientExt for C {
}

impl CommonClient for Client {
    type ClientRequest = RequestHead;

    fn request(&self, method: Method, url: &[u8]) -> Result<RequestHead, NativeError> {
        Client::request(self, method, url)
    }
}

/// Builds a client. Building owes success on every input: the result is a
/// well-formed client with an empty connection cache and no timeout set.
pub trait CommonClientBuilder {
    fn build(&self) -> (r: Result<Client, NativeError>)
        ensures
            r is Ok,
            r matches Ok(c) ==> c.wf() && c.cache_view() =~= Seq::<(Seq<u8>, u64)>::empty()
                && c.timeout_view() is None,
    ;
}

impl CommonClientBuilder for ClientBuilder {
    fn build(&self) -> Result<Client, NativeError> {
        Ok(Client::new())
    }
}

} // verus!
