//! The client: a factory for requests, owning the connection cache and the
//! configured timeout.
//!
//! A request is prepared entirely from plain values — the URL split into its
//! components, the header list, the declared body length — before any native
//! handle exists; the layer that owns handles drives the rest.

use vstd::prelude::*;

use crate::cache::ConnectionCache;
use crate::err_code::NativeError;
use crate::headers::{lower_seq, copy_range};
use crate::method::Method;
use crate::url::{spec_split_url, split_url, UrlParts};

verus! {

/// The configuration of one outbound request: method, target and headers,
/// ready for the native layer to open and send.
pub struct RequestHead {
    pub method: Method,
    pub scheme: Vec<u8>,
    pub host: Vec<u8>,
    pub port: Vec<u8>,
    pub path: Vec<u8>,
    pub query: Vec<u8>,
    pub headers: Vec<(Vec<u8>, Vec<u8>)>,
}

/// Index of the first header matching `name` without regard to ASCII case,
/// or a negative value.
pub open spec fn header_index_ci(hs: Seq<(Seq<u8>, Seq<u8>)>, name: Seq<u8>) -> int
    decreases hs.len(),
{
    if hs.len() == 0 {
        -1
    } else if lower_seq(hs[0].0) == lower_seq(name) {
        0
    } else {
        let r = header_index_ci(hs.skip(1), name);
        if r < 0 {
            -1
        } else {
            r + 1
        }
    }
}

/// `header_index_ci` finds exactly the least case-insensitive match.
pub proof fn lemma_header_index_ci(hs: Seq<(Seq<u8>, Seq<u8>)>, name: Seq<u8>)
    ensures
        header_index_ci(hs, name) < 0 ==> forall|i: int| 0 <= i < hs.len() ==> lower_seq(
            (#[trigger] hs[i]).0,
        ) != lower_seq(name),
        header_index_ci(hs, name) >= 0 ==> header_index_ci(hs, name) < hs.len() && lower_seq(
            hs[header_index_ci(hs, name)].0,
        ) == lower_seq(name) && forall|i: int| 0 <= i < header_index_ci(hs, name) ==> lower_seq(
            (#[trigger] hs[i]).0,
        ) != lower_seq(name),
    decreases hs.len(),
{
    if hs.len() > 0 && lower_seq(hs[0].0) != lower_seq(name) {
        let t = hs.skip(1);
        lemma_header_index_ci(t, name);
        let r = header_index_ci(t, name);
        if r >= 0 {
            assert(hs[r + 1] == t[r]);
            assert forall|i: int| 0 <= i < r + 1 implies lower_seq((#[trigger] hs[i]).0)
                != lower_seq(name) by {
                if i > 0 {
                    assert(hs[i] == t[i - 1]);
                }
            }
        } else {
            assert forall|i: int| 0 <= i < hs.len() implies lower_seq((#[trigger] hs[i]).0)
                != lower_seq(name) by {
                if i > 0 {
                    assert(hs[i] == t[i - 1]);
                }
            }
        }
    }
}

impl RequestHead {
    /// The configured header lines, in order.
    pub open spec fn headers_view(&self) -> Seq<(Seq<u8>, Seq<u8>)> {
        self.headers@.map(|i: int, p: (Vec<u8>, Vec<u8>)| (p.0@, p.1@))
    }

    pub fn new(method: Method, parts: UrlParts) -> (r: RequestHead)
        ensures
            r.method == method,
            r.scheme@ == parts.scheme@,
            r.host@ == parts.host@,
            r.port@ == parts.port@,
            r.path@ == parts.path@,
            r.query@ == parts.query@,
            r.headers_view() =~= Seq::<(Seq<u8>, Seq<u8>)>::empty(),
    {
        RequestHead {
            method,
            scheme: parts.scheme,
            host: parts.host,
            port: parts.port,
            path: parts.path,
            query: parts.query,
            headers: Vec::new(),
        }
    }

    /// Adds one header line; an existing line with the same name stays, as
    /// repeated names are legitimate.
    pub fn header(&mut self, name: &[u8], value: &[u8])
        ensures
            final(self).headers_view() =~= old(self).headers_view().push((name@, value@)),
            final(self).method == old(self).method,
    {
        let k = copy_range(name, 0, name.len());
        let v = copy_range(value, 0, value.len());
        proof {
            assert(k@ =~= name@);
            assert(v@ =~= value@);
        }
        self.headers.push((k, v));
        proof {
            assert(self.headers_view() =~= old(self).headers_view().push((name@, value@)));
        }
    }

    /// Replaces the first header of this name, without regard to ASCII
    /// case; a name not yet present is added instead.
    pub fn replace_header(&mut self, name: &[u8], value: &[u8])
        ensures
            final(self).method == old(self).method,
            ({
                let f = header_index_ci(old(self).headers_view(), name@);
                if f < 0 {
                    final(self).headers_view() =~= old(self).headers_view().push((name@, value@))
                } else {
                    final(self).headers_view() =~= old(self).headers_view().update(
                        f,
                        (old(self).headers_view()[f].0, value@),
                    )
                }
            }),
    {
        let ghost hv = self.headers_view();
        let n = self.headers.len();
        let mut j: usize = 0;
        while j < n
            invariant
                j <= n,
                n == self.headers@.len(),
                hv == self.headers_view(),
                self.headers@ == old(self).headers@,
                self.method == old(self).method,
                forall|i: int| 0 <= i < j ==> lower_seq((#[trigger] hv[i]).0) != lower_seq(name@),
            decreases n - j,
        {
            if crate::headers::eq_ignore_ascii_case_bytes(self.headers[j].0.as_slice(), name) {
                proof {
                    assert(hv[j as int].0 == self.headers@[j as int].0@);
                    lemma_header_index_ci(hv, name@);
                    let f = header_index_ci(hv, name@);
                    if f < 0 {
                    } else if f < j {
                    } else if f > j {
                    }
                    assert(f == j);
                }
                let k = copy_range(self.headers[j].0.as_slice(), 0, self.headers[j].0.len());
                let v = copy_range(value, 0, value.len());
                proof {
                    assert(k@ =~= self.headers@[j as int].0@);
                    assert(v@ =~= value@);
                }
                self.headers[j] = (k, v);
                proof {
                    assert(self.headers_view() =~= hv.update(j as int, (hv[j as int].0, value@)));
                }
                return ;
            }
            proof {
                assert(hv[j as int].0 == self.headers@[j as int].0@);
            }
            j = j + 1;
        }
        proof {
            lemma_header_index_ci(hv, name@);
            if header_index_ci(hv, name@) >= 0 {
                assert(lower_seq(hv[header_index_ci(hv, name@)].0) == lower_seq(name@));
            }
        }
        let k = copy_range(name, 0, name.len());
        let v = copy_range(value, 0, value.len());
        proof {
            assert(k@ =~= name@);
            assert(v@ =~= value@);
        }
        self.headers.push((k, v));
        proof {
            assert(self.headers_view() =~= hv.push((name@, value@)));
        }
    }

    /// Borrows the configured header lines.
    pub fn headers(&self) -> (r: &Vec<(Vec<u8>, Vec<u8>)>)
        ensures
            r@.map(|i: int, p: (Vec<u8>, Vec<u8>)| (p.0@, p.1@)) == self.headers_view(),
    {
        &self.headers
    }

}

/// One client: the connection cache it shares across its requests, and its
/// configured timeout.
pub struct Client {
    cache: ConnectionCache,
    timeout_ms: Option<u64>,
}

impl Client {
    pub closed spec fn cache_view(&self) -> Seq<(Seq<u8>, u64)> {
        self.cache.entries_view()
    }

    pub closed spec fn timeout_view(&self) -> Option<u64> {
        self.timeout_ms
    }

    pub closed spec fn wf(&self) -> bool {
        self.cache.wf()
    }

    pub fn new() -> (r: Client)
        ensures
            r.wf(),
            r.cache_view() =~= Seq::<(Seq<u8>, u64)>::empty(),
            r.timeout_view() is None,
    {
        Client { cache: ConnectionCache::new(), timeout_ms: None }
    }

    /// Sets the timeout, in milliseconds, that the native session is to be
    /// configured with; best-effort on backends without one.
    pub fn set_timeout(&mut self, max_timeout_ms: u64)
        requires
            old(self).wf(),
        ensures
            final(self).wf(),
            final(self).timeout_view() == Some(max_timeout_ms),
            final(self).cache_view() == old(self).cache_view(),
    {
        self.timeout_ms = Some(max_timeout_ms);
    }

    /// Prepares a request: the URL is split and the head assembled; no
    /// native resource is touched. Fails exactly on a URL without `"://"`.
    pub fn request(&self, method: Method, url: &[u8]) -> (r: Result<RequestHead, NativeError>)
        ensures
            match r {
                Ok(h) => {
                    &&& spec_split_url(url@) matches Some(t)
                    &&& h.method == method
                    &&& h.scheme@ == t.0
                    &&& h.host@ == t.1
                    &&& h.port@ == t.2
                    &&& h.path@ == t.3
                    &&& h.query@ == t.4
                    &&& h.headers_view() =~= Seq::<(Seq<u8>, Seq<u8>)>::empty()
                },
                Err(e) => spec_split_url(url@) is None && e.kind
                    == crate::err_code::IoErrorKind::InvalidInput && e.code
                    == crate::err_code::ERR_INVALID_URL,
            },
    {
        let parts = split_url(url)?;
        Ok(RequestHead::new(method, parts))
    }

    /// The lookup-or-insert under the client's lock: returns the handle all
    /// requests to this host share, caching `fresh_handle` only on a first
    /// request. See the cache for the exact contract.
    pub fn get_or_connect_connection(&mut self, hostname: &[u8], fresh_handle: u64) -> (r: (
        u64,
        bool,
    ))
        requires
            old(self).wf(),
        ensures
            final(self).wf(),
            r.0 == final(self).cache_view()[crate::cache::key_index(
                final(self).cache_view(),
                hostname@,
            )].1,
            crate::cache::key_index(final(self).cache_view(), hostname@) >= 0,
            crate::cache::key_index(old(self).cache_view(), hostname@) >= 0 ==> !r.1
                && final(self).cache_view() == old(self).cache_view(),
            crate::cache::key_index(old(self).cache_view(), hostname@) < 0 ==> r.1 && r.0
                == fresh_handle && final(self).cache_view() =~= old(self).cache_view().push(
                (hostname@, fresh_handle),
            ),
            final(self).timeout_view() == old(self).timeout_view(),
    {
        self.cache.get_or_insert(hostname, fresh_handle)
    }

    /// Looks up a cached connection without creating one.
    pub fn lookup_connection(&self, hostname: &[u8]) -> (r: Option<u64>)
        requires
            self.wf(),
        ensures
            match r {
                Some(h) => crate::cache::key_index(self.cache_view(), hostname@) >= 0 && h
                    == self.cache_view()[crate::cache::key_index(self.cache_view(), hostname@)].1,
                None => crate::cache::key_index(self.cache_view(), hostname@) < 0,
            },
    {
        self.cache.lookup(hostname)
    }
}

/// Builds clients; a fresh client has an empty cache and no timeout.
#[derive(Clone, Copy, Debug)]
pub struct ClientBuilder {}

impl Default for ClientBuilder {
    fn default() -> (r: Self)
        ensures
            r == (ClientBuilder {  }),
    {
        ClientBuilder {  }
    }
}

} // verus!
