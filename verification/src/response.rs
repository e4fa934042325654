//! The response snapshot a caller receives after the body has been drained:
//! payload bytes, status code, and the parsed header mapping.
//!
//! Header names are looked up without regard to ASCII case; repeated names
//! were already joined by the head parser. The snapshot never changes after
//! construction.

use vstd::prelude::*;
use vstd::string::StringSliceAdditionalSpecFns;
use vstd::utf8::encode_utf8;

use crate::headers::{headers_of, lower_seq, parse_head, pairs_view, status_of};

verus! {

/// What `String::from_utf8_lossy` makes of arbitrary bytes. Its full
/// definition would restate the UTF-8 decoder, so it stays a name; the one
/// fact callers rely on is that ASCII bytes come through unchanged.
pub uninterp spec fn lossy_of(b: Seq<u8>) -> Seq<char>;

pub open spec fn is_ascii_bytes(b: Seq<u8>) -> bool {
    forall|i: int| 0 <= i < b.len() ==> (#[trigger] b[i]) < 128
}

pub open spec fn ascii_chars_of(b: Seq<u8>) -> Seq<char> {
    b.map(|i: int, x: u8| x as char)
}

/// Relies on String::from_utf8_lossy: the result is a function of the bytes
/// alone, and bytes that are valid UTF-8 — ASCII in particular — decode to
/// themselves.
#[verifier::external_body]
fn bytes_to_string_lossy(b: &[u8]) -> (r: String)
    ensures
        r@ == lossy_of(b@),
        is_ascii_bytes(b@) ==> r@ == ascii_chars_of(b@),
{
    String::from_utf8_lossy(b).into_owned()
}

/// The lossy decoding of each parsed header pair.
pub open spec fn lossy_pairs(hs: Seq<(Seq<u8>, Seq<u8>)>) -> Seq<(Seq<char>, Seq<char>)> {
    hs.map(|i: int, p: (Seq<u8>, Seq<u8>)| (lossy_of(p.0), lossy_of(p.1)))
}

/// Index of the first header whose name equals `name_bytes` without regard
/// to ASCII case, or a negative value.
pub open spec fn find_ci(hs: Seq<(Seq<char>, Seq<char>)>, name_bytes: Seq<u8>) -> int
    decreases hs.len(),
{
    if hs.len() == 0 {
        -1
    } else if lower_seq(encode_utf8(hs[0].0)) == lower_seq(name_bytes) {
        0
    } else {
        let r = find_ci(hs.skip(1), name_bytes);
        if r < 0 {
            -1
        } else {
            r + 1
        }
    }
}

/// `find_ci` finds exactly the least case-insensitive match.
pub proof fn lemma_find_ci(hs: Seq<(Seq<char>, Seq<char>)>, name_bytes: Seq<u8>)
    ensures
        find_ci(hs, name_bytes) < 0 ==> forall|i: int| 0 <= i < hs.len() ==> lower_seq(
            encode_utf8((#[trigger] hs[i]).0),
        ) != lower_seq(name_bytes),
        find_ci(hs, name_bytes) >= 0 ==> find_ci(hs, name_bytes) < hs.len() && lower_seq(
            encode_utf8(hs[find_ci(hs, name_bytes)].0),
        ) == lower_seq(name_bytes) && forall|i: int| 0 <= i < find_ci(hs, name_bytes) ==> lower_seq(
            encode_utf8((#[trigger] hs[i]).0),
        ) != lower_seq(name_bytes),
    decreases hs.len(),
{
    if hs.len() > 0 && lower_seq(encode_utf8(hs[0].0)) != lower_seq(name_bytes) {
        let t = hs.skip(1);
        lemma_find_ci(t, name_bytes);
        let r = find_ci(t, name_bytes);
        if r >= 0 {
            assert(hs[r + 1] == t[r]);
            assert forall|i: int| 0 <= i < r + 1 implies lower_seq(
                encode_utf8((#[trigger] hs[i]).0),
            ) != lower_seq(name_bytes) by {
                if i > 0 {
                    assert(hs[i] == t[i - 1]);
                }
            }
        } else {
            assert forall|i: int| 0 <= i < hs.len() implies lower_seq(
                encode_utf8((#[trigger] hs[i]).0),
            ) != lower_seq(name_bytes) by {
                if i > 0 {
                    assert(hs[i] == t[i - 1]);
                }
            }
        }
    }
}

/// An immutable snapshot of one received response.
pub struct ResponseBody {
    data: Vec<u8>,
    code: u16,
    headers: Vec<(String, String)>,
}

impl ResponseBody {
    /// The payload bytes.
    pub closed spec fn data_view(&self) -> Seq<u8> {
        self.data@
    }

    /// The decoded status code.
    pub closed spec fn code_view(&self) -> u16 {
        self.code
    }

    /// The header mapping, names and values as decoded text.
    pub closed spec fn headers_view(&self) -> Seq<(Seq<char>, Seq<char>)> {
        self.headers@.map(|i: int, p: (String, String)| (p.0@, p.1@))
    }

    /// Builds the snapshot from the raw head and the drained body bytes.
    pub fn from_raw_head(raw_head: &[u8], data: Vec<u8>) -> (r: ResponseBody)
        ensures
            r.data_view() == data@,
            r.code_view() == status_of(raw_head@),
            r.headers_view() =~= lossy_pairs(headers_of(raw_head@)),
    {
        let (code, parsed) = parse_head(raw_head);
        let ghost parsed_spec = pairs_view(parsed@);
        let mut headers: Vec<(String, String)> = Vec::new();
        let n = parsed.len();
        let mut i: usize = 0;
        while i < n
            invariant
                i <= n,
                n == parsed@.len(),
                parsed_spec == pairs_view(parsed@),
                headers@.len() == i,
                forall|k: int| 0 <= k < i ==> (#[trigger] headers@[k]).0@ == lossy_of(
                    parsed_spec[k].0,
                ) && headers@[k].1@ == lossy_of(parsed_spec[k].1),
            decreases n - i,
        {
            let name = bytes_to_string_lossy(parsed[i].0.as_slice());
            let value = bytes_to_string_lossy(parsed[i].1.as_slice());
            proof {
                assert(parsed_spec[i as int].0 == parsed@[i as int].0@);
                assert(parsed_spec[i as int].1 == parsed@[i as int].1@);
            }
            headers.push((name, value));
            i = i + 1;
        }
        let r = ResponseBody { data, code, headers };
        proof {
            assert(r.headers_view() =~= lossy_pairs(pairs_view(parsed@)));
            assert(lossy_pairs(pairs_view(parsed@)) =~= lossy_pairs(headers_of(raw_head@)));
        }
        r
    }

    /// Builds a snapshot from already-decoded parts, for backends whose
    /// native API hands the status and headers over as values.
    pub fn from_parts(data: Vec<u8>, code: u16, headers: Vec<(String, String)>) -> (r:
        ResponseBody)
        ensures
            r.data_view() == data@,
            r.code_view() == code,
            r.headers_view() =~= headers@.map(|i: int, p: (String, String)| (p.0@, p.1@)),
    {
        ResponseBody { data, code, headers }
    }

    /// Consumes the snapshot, yielding the payload.
    pub fn into_data(self) -> (r: Vec<u8>)
        ensures
            r@ == self.data_view(),
    {
        self.data
    }

    /// Borrows the payload.
    pub fn data(&self) -> (r: &[u8])
        ensures
            r@ == self.data_view(),
    {
        self.data.as_slice()
    }

    /// The payload decoded as text, invalid sequences replaced.
    pub fn data_string(&self) -> (r: String)
        ensures
            r@ == lossy_of(self.data_view()),
            is_ascii_bytes(self.data_view()) ==> r@ == ascii_chars_of(self.data_view()),
    {
        bytes_to_string_lossy(self.data.as_slice())
    }

    pub fn status_code(&self) -> (r: u16)
        ensures
            r == self.code_view(),
    {
        self.code
    }

    /// Looks a header up by name, without regard to ASCII case; the first
    /// matching entry's value is returned.
    pub fn header(&self, header: &str) -> (r: Option<&str>)
        ensures
            match r {
                Some(v) => {
                    let f = find_ci(self.headers_view(), header.spec_bytes());
                    f >= 0 && v@ == self.headers_view()[f].1
                },
                None => find_ci(self.headers_view(), header.spec_bytes()) < 0,
            },
    {
        let ghost hv = self.headers_view();
        let name_bytes = header.as_bytes();
        let n = self.headers.len();
        let mut i: usize = 0;
        while i < n
            invariant
                i <= n,
                n == self.headers@.len(),
                hv == self.headers_view(),
                name_bytes@ == header.spec_bytes(),
                forall|k: int| 0 <= k < i ==> lower_seq(encode_utf8((#[trigger] hv[k]).0))
                    != lower_seq(name_bytes@),
            decreases n - i,
        {
            let key = self.headers[i].0.as_str();
            if crate::headers::eq_ignore_ascii_case_bytes(key.as_bytes(), name_bytes) {
                proof {
                    assert(hv[i as int].0 == self.headers@[i as int].0@);
                    lemma_find_ci(hv, name_bytes@);
                    let f = find_ci(hv, name_bytes@);
                    if f < 0 {
                    } else if f < i {
                    } else if f > i {
                    }
                    assert(f == i);
                }
                return Some(self.headers[i].1.as_str());
            }
            proof {
                assert(hv[i as int].0 == self.headers@[i as int].0@);
            }
            i = i + 1;
        }
        proof {
            lemma_find_ci(hv, name_bytes@);
            if find_ci(hv, name_bytes@) >= 0 {
                assert(lower_seq(encode_utf8(hv[find_ci(hv, name_bytes@)].0)) == lower_seq(
                    name_bytes@,
                ));
            }
        }
        None
    }
}

} // verus!
