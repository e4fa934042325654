//! Splitting a URL into the components the native stack takes separately.
//!
//! A request URL is cut at its first `"://"`: before it the scheme, after it
//! the authority and the rest. The host runs to the first `:`, `/` or `?`;
//! an optional `:port` follows up to the first `/` or `?`; the path runs
//! from there to the first `?`; the query is the remainder, question mark
//! included. A URL without `"://"` is rejected as invalid input.

use vstd::prelude::*;

use crate::err_code::{IoErrorKind, NativeError, ERR_INVALID_URL};
use crate::headers::{copy_range, first_occ, COLON};

verus! {

pub const SLASH: u8 = 47;

pub const QMARK: u8 = 63;

/// Index of the first `"://"`, or a negative value if none.
pub open spec fn first_scheme_mark(s: Seq<u8>) -> int
    decreases s.len(),
{
    if s.len() < 3 {
        -1
    } else if s[0] == COLON && s[1] == SLASH && s[2] == SLASH {
        0
    } else {
        let r = first_scheme_mark(s.skip(1));
        if r < 0 {
            -1
        } else {
            r + 1
        }
    }
}

pub open spec fn scheme_mark_at(s: Seq<u8>, i: int) -> bool {
    0 <= i && i + 3 <= s.len() && s[i] == COLON && s[i + 1] == SLASH && s[i + 2] == SLASH
}

/// `first_scheme_mark` finds exactly the least `"://"` position.
pub proof fn lemma_first_scheme_mark(s: Seq<u8>)
    ensures
        first_scheme_mark(s) < 0 ==> forall|i: int| 0 <= i ==> !scheme_mark_at(s, i),
        first_scheme_mark(s) >= 0 ==> scheme_mark_at(s, first_scheme_mark(s)) && forall|i: int|
            0 <= i < first_scheme_mark(s) ==> !scheme_mark_at(s, i),
    decreases s.len(),
{
    if s.len() < 3 {
    } else if s[0] == COLON && s[1] == SLASH && s[2] == SLASH {
    } else {
        let t = s.skip(1);
        lemma_first_scheme_mark(t);
        let r = first_scheme_mark(t);
        assert forall|i: int| 1 <= i && i + 3 <= s.len() implies (scheme_mark_at(s, i)
            <==> scheme_mark_at(t, i - 1)) by {
            assert(t[i - 1] == s[i]);
            assert(t[i] == s[i + 1]);
            assert(i + 2 < s.len() ==> t[i + 1] == s[i + 2]);
        }
        if r >= 0 {
            assert(scheme_mark_at(s, r + 1));
            assert forall|i: int| 0 <= i < r + 1 implies !scheme_mark_at(s, i) by {
                if i > 0 {
                    assert(!scheme_mark_at(t, i - 1));
                }
            }
        } else {
            assert forall|i: int| 0 <= i implies !scheme_mark_at(s, i) by {
                if i > 0 && i + 3 <= s.len() {
                    assert(!scheme_mark_at(t, i - 1));
                }
            }
        }
    }
}

/// Index of the first byte equal to one of three delimiters, or negative.
pub open spec fn first_any(s: Seq<u8>, a: u8, b: u8, c: u8) -> int
    decreases s.len(),
{
    if s.len() == 0 {
        -1
    } else if s[0] == a || s[0] == b || s[0] == c {
        0
    } else {
        let r = first_any(s.skip(1), a, b, c);
        if r < 0 {
            -1
        } else {
            r + 1
        }
    }
}

/// `first_any` finds exactly the least delimiter position.
pub proof fn lemma_first_any(s: Seq<u8>, a: u8, b: u8, c: u8)
    ensures
        first_any(s, a, b, c) < 0 ==> forall|i: int| 0 <= i < s.len() ==> !((#[trigger] s[i]) == a
            || s[i] == b || s[i] == c),
        first_any(s, a, b, c) >= 0 ==> first_any(s, a, b, c) < s.len() && (s[first_any(s, a, b, c)]
            == a || s[first_any(s, a, b, c)] == b || s[first_any(s, a, b, c)] == c) && forall|
            i: int,
        | 0 <= i < first_any(s, a, b, c) ==> !((#[trigger] s[i]) == a || s[i] == b || s[i] == c),
    decreases s.len(),
{
    if s.len() > 0 && !(s[0] == a || s[0] == b || s[0] == c) {
        let t = s.skip(1);
        lemma_first_any(t, a, b, c);
        let r = first_any(t, a, b, c);
        if r >= 0 {
            assert(s[r + 1] == t[r]);
            assert forall|i: int| 0 <= i < r + 1 implies !((#[trigger] s[i]) == a || s[i] == b
                || s[i] == c) by {
                if i > 0 {
                    assert(s[i] == t[i - 1]);
                }
            }
        } else {
            assert forall|i: int| 0 <= i < s.len() implies !((#[trigger] s[i]) == a || s[i] == b
                || s[i] == c) by {
                if i > 0 {
                    assert(s[i] == t[i - 1]);
                }
            }
        }
    }
}

/// Scans for the next of three delimiters at or after `from`.
pub fn find_any(s: &[u8], from: usize, a: u8, b: u8, c: u8) -> (r: Option<usize>)
    requires
        from <= s@.len(),
    ensures
        match r {
            Some(i) => from <= i < s@.len() && first_any(s@.skip(from as int), a, b, c) == i
                - from,
            None => first_any(s@.skip(from as int), a, b, c) < 0,
        },
{
    let n = s.len();
    let mut j = from;
    while j < n
        invariant
            from <= j <= n,
            n == s@.len(),
            forall|k: int| from <= k < j ==> !((#[trigger] s@[k]) == a || s@[k] == b || s@[k]
                == c),
        decreases n - j,
    {
        if s[j] == a || s[j] == b || s[j] == c {
            proof {
                let t = s@.skip(from as int);
                assert(t[j - from] == s@[j as int]);
                assert forall|k: int| 0 <= k < j - from implies !((#[trigger] t[k]) == a || t[k]
                    == b || t[k] == c) by {
                    assert(t[k] == s@[from + k]);
                }
                lemma_first_any(t, a, b, c);
                let f = first_any(t, a, b, c);
                if f < 0 {
                } else if f < j - from {
                } else if f > j - from {
                    assert(!(t[j - from] == a || t[j - from] == b || t[j - from] == c));
                }
            }
            return Some(j);
        }
        j = j + 1;
    }
    proof {
        let t = s@.skip(from as int);
        lemma_first_any(t, a, b, c);
        if first_any(t, a, b, c) >= 0 {
            assert(t[first_any(t, a, b, c)] == s@[from + first_any(t, a, b, c)]);
        }
    }
    None
}

/// The components a URL splits into.
pub struct UrlParts {
    pub scheme: Vec<u8>,
    pub host: Vec<u8>,
    pub port: Vec<u8>,
    pub path: Vec<u8>,
    pub query: Vec<u8>,
}

/// Where the spec splits a URL, as one record of sequences.
pub open spec fn spec_split_url(s: Seq<u8>) -> Option<(Seq<u8>, Seq<u8>, Seq<u8>, Seq<u8>, Seq<u8>)> {
    let m = first_scheme_mark(s);
    if m < 0 {
        Option::None
    } else {
        let scheme = s.take(m);
        let rest = s.skip(m + 3);
        let he = first_any(rest, COLON, SLASH, QMARK);
        let he2 = if he < 0 {
            rest.len() as int
        } else {
            he
        };
        let host = rest.take(he2);
        let tail = rest.skip(he2);
        let ps = first_any(tail, SLASH, QMARK, QMARK);
        let ps2 = if ps < 0 {
            tail.len() as int
        } else {
            ps
        };
        let port = if tail.len() > 0 && tail[0] == COLON {
            tail.take(ps2).skip(1)
        } else {
            Seq::empty()
        };
        let pathq = tail.skip(ps2);
        let q = first_occ(pathq, QMARK);
        let q2 = if q < 0 {
            pathq.len() as int
        } else {
            q
        };
        Option::Some((scheme, host, port, pathq.take(q2), pathq.skip(q2)))
    }
}

/// Splits a URL, or rejects one without a `"://"` as invalid input.
pub fn split_url(s: &[u8]) -> (r: Result<UrlParts, NativeError>)
    ensures
        match r {
            Ok(p) => {
                &&& spec_split_url(s@) matches Some(t)
                &&& p.scheme@ == t.0
                &&& p.host@ == t.1
                &&& p.port@ == t.2
                &&& p.path@ == t.3
                &&& p.query@ == t.4
            },
            Err(e) => spec_split_url(s@) is None && e.kind == IoErrorKind::InvalidInput
                && e.code == ERR_INVALID_URL,
        },
{
    let n = s.len();
    // Find the first "://".
    let mut j: usize = 0;
    if n < 3 {
        proof {
            lemma_first_scheme_mark(s@);
            if first_scheme_mark(s@) >= 0 {
                assert(scheme_mark_at(s@, first_scheme_mark(s@)));
            }
        }
        return Err(NativeError { kind: IoErrorKind::InvalidInput, code: ERR_INVALID_URL });
    }
    while j < n - 2 && !(s[j] == COLON && s[j + 1] == SLASH && s[j + 2] == SLASH)
        invariant
            j <= n - 2,
            3 <= n == s@.len(),
            forall|i: int| 0 <= i < j ==> !scheme_mark_at(s@, i),
        decreases n - j,
    {
        j = j + 1;
    }
    if j >= n - 2 {
        proof {
            lemma_first_scheme_mark(s@);
            if first_scheme_mark(s@) >= 0 {
                let f = first_scheme_mark(s@);
                assert(scheme_mark_at(s@, f));
                assert(f < j);
            }
        }
        return Err(NativeError { kind: IoErrorKind::InvalidInput, code: ERR_INVALID_URL });
    }
    let m = j;
    proof {
        lemma_first_scheme_mark(s@);
        let f = first_scheme_mark(s@);
        if f < 0 {
            assert(!scheme_mark_at(s@, m as int));
        } else if f < m {
            assert(!scheme_mark_at(s@, f));
        } else if f > m {
            assert(!scheme_mark_at(s@, m as int));
        }
        assert(f == m);
    }
    let scheme = copy_range(s, 0, m);
    let ghost rest = s@.skip(m + 3);
    let rest_start = m + 3;
    // Host: to the first ':', '/' or '?'.
    let host_end = match find_any(s, rest_start, COLON, SLASH, QMARK) {
        Some(i) => i,
        None => n,
    };
    let host = copy_range(s, rest_start, host_end);
    proof {
        assert(host@ =~= rest.take(host_end - rest_start));
        if host_end == n {
            assert(rest.take(rest.len() as int) =~= rest);
        }
    }
    let ghost tail = rest.skip(host_end - rest_start);
    // Path start: the first '/' or '?' at or after the host's end.
    let path_start = match find_any(s, host_end, SLASH, QMARK, QMARK) {
        Some(i) => i,
        None => n,
    };
    proof {
        assert(tail =~= s@.skip(host_end as int));
        let ps = first_any(tail, SLASH, QMARK, QMARK);
        if path_start < n {
            assert(ps == path_start - host_end);
        } else {
            assert(ps < 0);
        }
    }
    // Port: between host and path, the ':' itself dropped.
    let port = if host_end < n && s[host_end] == COLON {
        proof {
            assert(tail[0] == s@[host_end as int]);
        }
        copy_range(s, host_end + 1, path_start)
    } else {
        proof {
            if host_end < n {
                assert(tail[0] == s@[host_end as int]);
            }
        }
        Vec::new()
    };
    proof {
        let ps2 = if first_any(tail, SLASH, QMARK, QMARK) < 0 {
            tail.len() as int
        } else {
            first_any(tail, SLASH, QMARK, QMARK)
        };
        if tail.len() > 0 && tail[0] == COLON {
            assert(port@ =~= tail.take(ps2).skip(1));
        }
    }
    let ghost pathq = tail.skip(
        if first_any(tail, SLASH, QMARK, QMARK) < 0 {
            tail.len() as int
        } else {
            first_any(tail, SLASH, QMARK, QMARK)
        },
    );
    // Path: to the first '?'; query: the remainder.
    let q_start = match crate::headers::find_byte(s, path_start, QMARK) {
        Some(i) => i,
        None => n,
    };
    let path = copy_range(s, path_start, q_start);
    let query = copy_range(s, q_start, n);
    proof {
        assert(pathq =~= s@.skip(path_start as int));
        let q = first_occ(pathq, QMARK);
        if q_start < n {
            assert(q == q_start - path_start);
        } else {
            assert(q < 0);
        }
        let q2 = if q < 0 {
            pathq.len() as int
        } else {
            q
        };
        assert(path@ =~= pathq.take(q2));
        assert(query@ =~= pathq.skip(q2));
        assert(scheme@ =~= s@.take(m as int));
    }
    Ok(UrlParts { scheme, host, port, path, query })
}

} // verus!
