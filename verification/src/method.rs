//! The closed set of HTTP request methods and their textual forms.
//!
//! Native stacks want the method either as a plain string or as a
//! NUL-terminated wide (UTF-16) string; both forms are derived here.

use vstd::prelude::*;
use vstd::string::StringSliceAdditionalSpecFns;

verus! {

#[derive(Clone, Copy, Debug, PartialEq, Eq, Structural)]
pub enum Method {
    GET,
    POST,
    HEAD,
    PUT,
    TRACE,
    DELETE,
    CONNECT,
    OPTIONS,
    PATCH,
}

impl Method {
    /// The method's text, as it appears on the request line.
    pub open spec fn spec_str(self) -> Seq<char> {
        match self {
            Method::GET => "GET"@,
            Method::POST => "POST"@,
            Method::HEAD => "HEAD"@,
            Method::PUT => "PUT"@,
            Method::TRACE => "TRACE"@,
            Method::DELETE => "DELETE"@,
            Method::CONNECT => "CONNECT"@,
            Method::OPTIONS => "OPTIONS"@,
            Method::PATCH => "PATCH"@,
        }
    }

    pub fn as_str(&self) -> (r: &'static str)
        ensures
            r@ == self.spec_str(),
            r.is_ascii(),
    {
        proof {
            reveal_strlit("GET");
            reveal_strlit("POST");
            reveal_strlit("HEAD");
            reveal_strlit("PUT");
            reveal_strlit("TRACE");
            reveal_strlit("DELETE");
            reveal_strlit("CONNECT");
            reveal_strlit("OPTIONS");
            reveal_strlit("PATCH");
        }
        match self {
            Method::GET => "GET",
            Method::POST => "POST",
            Method::HEAD => "HEAD",
            Method::PUT => "PUT",
            Method::TRACE => "TRACE",
            Method::DELETE => "DELETE",
            Method::CONNECT => "CONNECT",
            Method::OPTIONS => "OPTIONS",
            Method::PATCH => "PATCH",
        }
    }

    /// The method as a NUL-terminated wide string for a native stack that
    /// takes UTF-16.
    pub fn as_wide(&self) -> (r: Vec<u16>)
        ensures
            r@ == wide_of_ascii(self.spec_str()),
    {
        let s = self.as_str();
        str_to_utf16(s)
    }
}

/// An ASCII text re-expressed as UTF-16 code units with a trailing NUL, the
/// form the native wide-string APIs take.
pub open spec fn wide_of_ascii(s: Seq<char>) -> Seq<u16> {
    s.map(|i: int, c: char| c as u16).push(0u16)
}

/// Re-encodes an ASCII string as a NUL-terminated wide string.
pub fn str_to_utf16(s: &str) -> (r: Vec<u16>)
    requires
        s.is_ascii(),
    ensures
        r@ == wide_of_ascii(s@),
{
    broadcast use vstd::string::is_ascii_spec_bytes;

    let bytes = s.as_bytes();
    let n = bytes.len();
    let mut r: Vec<u16> = Vec::new();
    let mut i: usize = 0;
    while i < n
        invariant
            s.is_ascii(),
            bytes@ == s.spec_bytes(),
            n == bytes@.len(),
            n == s@.len(),
            i <= n,
            r@.len() == i,
            forall|k: int| 0 <= k < i ==> r@[k] == s@[k] as u16,
        decreases n - i,
    {
        let b = bytes[i];
        proof {
            assert(s.spec_bytes()[i as int] == s@[i as int] as u8);
        }
        r.push(b as u16);
        i = i + 1;
    }
    r.push(0u16);
    proof {
        assert(r@ =~= wide_of_ascii(s@));
    }
    r
}

} // verus!
