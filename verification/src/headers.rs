//! Parsing of the raw response head the native stack hands over.
//!
//! The head is CRLF-separated text: a status line, then one header per line.
//! Lines are split at each line feed, with a carriage return directly before
//! the line feed not counted as line content; the final line needs no ending.
//! The status code is the second space-separated field of the first line,
//! read as decimal digits, with anything unreadable decoding to zero rather
//! than failing. Header lines split at the first `": "`; names repeat by
//! joining their values with `"; "`. Lines without a `": "` are ignored.

use vstd::prelude::*;

verus! {

pub const LF: u8 = 10;

pub const CR: u8 = 13;

pub const SP: u8 = 32;

pub const COLON: u8 = 58;

pub const SEMI: u8 = 59;

/// Index of the first line feed, or a negative value if there is none.
pub open spec fn first_nl(s: Seq<u8>) -> int
    decreases s.len(),
{
    if s.len() == 0 {
        -1
    } else if s[0] == LF {
        0
    } else {
        let r = first_nl(s.skip(1));
        if r < 0 {
            -1
        } else {
            r + 1
        }
    }
}

/// `first_nl` finds exactly the least index holding a line feed.
pub proof fn lemma_first_nl(s: Seq<u8>)
    ensures
        first_nl(s) < 0 ==> forall|i: int| 0 <= i < s.len() ==> s[i] != LF,
        first_nl(s) >= 0 ==> first_nl(s) < s.len() && s[first_nl(s)] == LF && forall|i: int|
            0 <= i < first_nl(s) ==> s[i] != LF,
    decreases s.len(),
{
    if s.len() > 0 && s[0] != LF {
        lemma_first_nl(s.skip(1));
        let r = first_nl(s.skip(1));
        if r >= 0 {
            assert(s[r + 1] == s.skip(1)[r]);
            assert forall|i: int| 0 <= i < r + 1 implies s[i] != LF by {
                if i > 0 {
                    assert(s[i] == s.skip(1)[i - 1]);
                }
            }
        } else {
            assert forall|i: int| 0 <= i < s.len() implies s[i] != LF by {
                if i > 0 {
                    assert(s[i] == s.skip(1)[i - 1]);
                }
            }
        }
    }
}

/// If `i` is an index of a line feed with none before it, it is `first_nl`.
pub proof fn lemma_first_nl_unique(s: Seq<u8>, i: int)
    requires
        0 <= i < s.len(),
        s[i] == LF,
        forall|k: int| 0 <= k < i ==> s[k] != LF,
    ensures
        first_nl(s) == i,
{
    lemma_first_nl(s);
    let f = first_nl(s);
    if f < 0 {
    } else if f < i {
    } else if f > i {
    }
}

/// A segment before a line feed, with one carriage return directly before
/// the line feed not counted.
pub open spec fn strip_cr(line: Seq<u8>) -> Seq<u8> {
    if line.len() > 0 && line.last() == CR {
        line.drop_last()
    } else {
        line
    }
}

/// The lines of `s`: split at each line feed, a carriage return before the
/// line feed dropped, and no empty final line after a trailing line feed.
pub open spec fn split_lines(s: Seq<u8>) -> Seq<Seq<u8>>
    decreases s.len(),
{
    if s.len() == 0 {
        seq![]
    } else {
        let i = first_nl(s);
        if i < 0 {
            seq![s]
        } else if 0 <= i < s.len() {
            seq![strip_cr(s.take(i))] + split_lines(s.skip(i + 1))
        } else {
            seq![]
        }
    }
}

/// `split_lines` really takes the first-line / rest shape at a line feed.
pub proof fn lemma_split_lines_step(s: Seq<u8>)
    requires
        s.len() > 0,
        first_nl(s) >= 0,
    ensures
        split_lines(s) =~= seq![strip_cr(s.take(first_nl(s)))] + split_lines(
            s.skip(first_nl(s) + 1),
        ),
{
    lemma_first_nl(s);
}

/// Scans for the next line feed at or after `from`.
pub fn find_nl(s: &[u8], from: usize) -> (r: Option<usize>)
    requires
        from <= s@.len(),
    ensures
        match r {
            Some(i) => from <= i < s@.len() && first_nl(s@.skip(from as int)) == i - from,
            None => first_nl(s@.skip(from as int)) < 0,
        },
{
    let n = s.len();
    let mut j = from;
    while j < n
        invariant
            from <= j <= n,
            n == s@.len(),
            forall|k: int| from <= k < j ==> s@[k] != LF,
        decreases n - j,
    {
        if s[j] == LF {
            proof {
                let t = s@.skip(from as int);
                assert(t[j - from] == s@[j as int]);
                assert forall|k: int| 0 <= k < j - from implies t[k] != LF by {
                    assert(t[k] == s@[from + k]);
                }
                lemma_first_nl_unique(t, j - from);
            }
            return Some(j);
        }
        j = j + 1;
    }
    proof {
        let t = s@.skip(from as int);
        lemma_first_nl(t);
        if first_nl(t) >= 0 {
            assert(t[first_nl(t)] == s@[from + first_nl(t)]);
        }
    }
    None
}

/// Copies `s[lo..hi]`.
pub fn copy_range(s: &[u8], lo: usize, hi: usize) -> (r: Vec<u8>)
    requires
        lo <= hi <= s@.len(),
    ensures
        r@ =~= s@.subrange(lo as int, hi as int),
{
    let mut v: Vec<u8> = Vec::new();
    let mut j = lo;
    while j < hi
        invariant
            lo <= j <= hi <= s@.len(),
            v@.len() == j - lo,
            forall|k: int| 0 <= k < v@.len() ==> v@[k] == s@[lo + k],
        decreases hi - j,
    {
        v.push(s[j]);
        j = j + 1;
    }
    v
}

/// The views of a vector of byte lines.
pub open spec fn lines_view(v: Seq<Vec<u8>>) -> Seq<Seq<u8>> {
    v.map(|i: int, l: Vec<u8>| l@)
}

/// Splits the raw head into its lines.
pub fn split_into_lines(s: &[u8]) -> (r: Vec<Vec<u8>>)
    ensures
        lines_view(r@) =~= split_lines(s@),
{
    let n = s.len();
    let mut out: Vec<Vec<u8>> = Vec::new();
    let mut pos: usize = 0;
    proof {
        assert(s@.skip(0) =~= s@);
    }
    while pos < n
        invariant
            pos <= n,
            n == s@.len(),
            split_lines(s@) =~= lines_view(out@) + split_lines(s@.skip(pos as int)),
        decreases n - pos,
    {
        let ghost suffix = s@.skip(pos as int);
        match find_nl(s, pos) {
            Some(i) => {
                // The segment before the line feed, with a carriage return
                // directly before it dropped.
                let seg_end = if i > pos && s[i - 1] == CR {
                    i - 1
                } else {
                    i
                };
                let line = copy_range(s, pos, seg_end);
                proof {
                    lemma_split_lines_step(suffix);
                    let cut = (i - pos) as int;
                    assert(suffix.take(cut) =~= s@.subrange(pos as int, i as int));
                    assert(strip_cr(suffix.take(cut)) =~= line@);
                    assert(suffix.skip(cut + 1) =~= s@.skip(i + 1));
                }
                out.push(line);
                proof {
                    assert(lines_view(out@) =~= lines_view(out@.drop_last()) + seq![
                        out@.last()@,
                    ]);
                    assert(split_lines(s@) =~= lines_view(out@) + split_lines(
                        s@.skip(i + 1),
                    ));
                }
                pos = i + 1;
            },
            None => {
                let line = copy_range(s, pos, n);
                proof {
                    assert(suffix =~= s@.subrange(pos as int, n as int));
                    assert(suffix.len() > 0);
                }
                out.push(line);
                proof {
                    assert(split_lines(suffix) =~= seq![suffix]);
                    assert(lines_view(out@) =~= lines_view(out@.drop_last()) + seq![
                        out@.last()@,
                    ]);
                    assert(split_lines(s@) =~= lines_view(out@) + split_lines(
                        s@.skip(n as int),
                    ));
                }
                pos = n;
            },
        }
    }
    proof {
        assert(s@.skip(n as int).len() == 0);
    }
    out
}


/// Index of the first occurrence of `b`, or a negative value if none.
pub open spec fn first_occ(s: Seq<u8>, b: u8) -> int
    decreases s.len(),
{
    if s.len() == 0 {
        -1
    } else if s[0] == b {
        0
    } else {
        let r = first_occ(s.skip(1), b);
        if r < 0 {
            -1
        } else {
            r + 1
        }
    }
}

/// `first_occ` finds exactly the least index holding `b`.
pub proof fn lemma_first_occ(s: Seq<u8>, b: u8)
    ensures
        first_occ(s, b) < 0 ==> forall|i: int| 0 <= i < s.len() ==> s[i] != b,
        first_occ(s, b) >= 0 ==> first_occ(s, b) < s.len() && s[first_occ(s, b)] == b
            && forall|i: int| 0 <= i < first_occ(s, b) ==> s[i] != b,
    decreases s.len(),
{
    if s.len() > 0 && s[0] != b {
        lemma_first_occ(s.skip(1), b);
        let r = first_occ(s.skip(1), b);
        if r >= 0 {
            assert(s[r + 1] == s.skip(1)[r]);
            assert forall|i: int| 0 <= i < r + 1 implies s[i] != b by {
                if i > 0 {
                    assert(s[i] == s.skip(1)[i - 1]);
                }
            }
        } else {
            assert forall|i: int| 0 <= i < s.len() implies s[i] != b by {
                if i > 0 {
                    assert(s[i] == s.skip(1)[i - 1]);
                }
            }
        }
    }
}

/// If `i` holds `b` with no earlier occurrence, it is `first_occ`.
pub proof fn lemma_first_occ_unique(s: Seq<u8>, b: u8, i: int)
    requires
        0 <= i < s.len(),
        s[i] == b,
        forall|k: int| 0 <= k < i ==> s[k] != b,
    ensures
        first_occ(s, b) == i,
{
    lemma_first_occ(s, b);
}

/// Scans for the next occurrence of `b` at or after `from`.
pub fn find_byte(s: &[u8], from: usize, b: u8) -> (r: Option<usize>)
    requires
        from <= s@.len(),
    ensures
        match r {
            Some(i) => from <= i < s@.len() && first_occ(s@.skip(from as int), b) == i - from,
            None => first_occ(s@.skip(from as int), b) < 0,
        },
{
    let n = s.len();
    let mut j = from;
    while j < n
        invariant
            from <= j <= n,
            n == s@.len(),
            forall|k: int| from <= k < j ==> s@[k] != b,
        decreases n - j,
    {
        if s[j] == b {
            proof {
                let t = s@.skip(from as int);
                assert(t[j - from] == s@[j as int]);
                assert forall|k: int| 0 <= k < j - from implies t[k] != b by {
                    assert(t[k] == s@[from + k]);
                }
                lemma_first_occ_unique(t, b, j - from);
            }
            return Some(j);
        }
        j = j + 1;
    }
    proof {
        let t = s@.skip(from as int);
        lemma_first_occ(t, b);
        if first_occ(t, b) >= 0 {
            assert(t[first_occ(t, b)] == s@[from + first_occ(t, b)]);
        }
    }
    None
}

/// The second space-separated field of a line, if the line has one.
pub open spec fn second_field(line: Seq<u8>) -> Option<Seq<u8>> {
    let i = first_occ(line, SP);
    if i < 0 {
        None
    } else {
        let rest = line.skip(i + 1);
        let j = first_occ(rest, SP);
        if j < 0 {
            Some(rest)
        } else {
            Some(rest.take(j))
        }
    }
}

pub open spec fn is_digit(b: u8) -> bool {
    48 <= b <= 57
}

pub open spec fn is_digits(s: Seq<u8>) -> bool {
    s.len() > 0 && forall|i: int| 0 <= i < s.len() ==> is_digit(#[trigger] s[i])
}

/// The decimal value of a digit string.
pub open spec fn digits_val(s: Seq<u8>) -> int
    decreases s.len(),
{
    if s.len() == 0 {
        0
    } else {
        digits_val(s.drop_last()) * 10 + (s.last() - 48)
    }
}

pub proof fn lemma_digits_val_nonneg(s: Seq<u8>)
    requires
        forall|i: int| 0 <= i < s.len() ==> is_digit(#[trigger] s[i]),
    ensures
        digits_val(s) >= 0,
    decreases s.len(),
{
    if s.len() > 0 {
        lemma_digits_val_nonneg(s.drop_last());
    }
}

/// A digit string is worth at least any of its prefixes.
pub proof fn lemma_digits_val_prefix(s: Seq<u8>, k: int)
    requires
        0 <= k <= s.len(),
        forall|i: int| 0 <= i < s.len() ==> is_digit(#[trigger] s[i]),
    ensures
        digits_val(s.take(k)) <= digits_val(s),
    decreases s.len() - k,
{
    if k < s.len() {
        let t = s.take(k + 1);
        assert(t.drop_last() =~= s.take(k));
        lemma_digits_val_nonneg(s.take(k));
        assert(digits_val(t) == digits_val(s.take(k)) * 10 + (s[k] - 48));
        lemma_digits_val_prefix(s, k + 1);
    } else {
        assert(s.take(k) =~= s);
    }
}

/// The status code a status line decodes to: its second field read as
/// decimal digits, or zero when there is no such field or it is not a
/// number that fits.
pub open spec fn status_of_line(line: Seq<u8>) -> u16 {
    match second_field(line) {
        Option::None => 0,
        Option::Some(t) => if is_digits(t) && digits_val(t) <= 65535 {
            digits_val(t) as u16
        } else {
            0
        },
    }
}

/// The status code of a whole raw head.
pub open spec fn status_of(raw: Seq<u8>) -> u16 {
    let ls = split_lines(raw);
    if ls.len() == 0 {
        0
    } else {
        status_of_line(ls[0])
    }
}

/// Decodes the status code from the status line.
pub fn parse_status_line(line: &[u8]) -> (r: u16)
    ensures
        r == status_of_line(line@),
{
    let i = match find_byte(line, 0, SP) {
        Some(i) => i,
        None => {
            proof {
                assert(line@.skip(0) =~= line@);
            }
            return 0;
        },
    };
    proof {
        assert(line@.skip(0) =~= line@);
    }
    let n = line.len();
    let end = match find_byte(line, i + 1, SP) {
        Some(j) => j,
        None => n,
    };
    let ghost rest = line@.skip(i + 1);
    let tok = vstd::slice::slice_subrange(line, i + 1, end);
    proof {
        if end < n {
            assert(tok@ =~= rest.take(end - (i + 1)));
        } else {
            assert(tok@ =~= rest);
        }
        assert(second_field(line@) == Some(tok@));
    }
    if tok.len() == 0 {
        return 0;
    }
    let m = tok.len();
    let mut val: u32 = 0;
    let mut k: usize = 0;
    while k < m
        invariant
            k <= m,
            m == tok@.len(),
            m > 0,
            second_field(line@) == Some(tok@),
            forall|x: int| 0 <= x < k ==> is_digit(#[trigger] tok@[x]),
            val == digits_val(tok@.take(k as int)),
            val <= 65535,
        decreases m - k,
    {
        let b = tok[k];
        if b < 48 || b > 57 {
            proof {
                assert(!is_digit(tok@[k as int]));
                assert(!is_digits(tok@));
            }
            return 0;
        }
        proof {
            assert(tok@.take(k + 1).drop_last() =~= tok@.take(k as int));
        }
        let next = val * 10 + (b - 48) as u32;
        if next > 65535 {
            proof {
                assert(tok@.take(k + 1).last() == tok@[k as int]);
                assert(digits_val(tok@.take(k + 1)) == val * 10 + (b - 48));
                if is_digits(tok@) {
                    lemma_digits_val_prefix(tok@, k + 1);
                    assert(digits_val(tok@) > 65535);
                }
            }
            return 0;
        }
        val = next;
        k = k + 1;
    }
    proof {
        assert(tok@.take(m as int) =~= tok@);
    }
    val as u16
}

/// ASCII whitespace, the characters trimmed from header names and values.
pub open spec fn is_ws(b: u8) -> bool {
    b == SP || 9 <= b <= 13
}

pub open spec fn trim_start(s: Seq<u8>) -> Seq<u8>
    decreases s.len(),
{
    if s.len() > 0 && is_ws(s[0]) {
        trim_start(s.skip(1))
    } else {
        s
    }
}

pub open spec fn trim_end(s: Seq<u8>) -> Seq<u8>
    decreases s.len(),
{
    if s.len() > 0 && is_ws(s.last()) {
        trim_end(s.drop_last())
    } else {
        s
    }
}

/// `s` without leading and trailing ASCII whitespace.
pub open spec fn trim(s: Seq<u8>) -> Seq<u8> {
    trim_end(trim_start(s))
}

/// Dropping `k` leading whitespace bytes, up to the first non-whitespace,
/// is exactly `trim_start`.
pub proof fn lemma_trim_start_at(s: Seq<u8>, k: int)
    requires
        0 <= k <= s.len(),
        forall|i: int| 0 <= i < k ==> is_ws(#[trigger] s[i]),
        k == s.len() || !is_ws(s[k]),
    ensures
        trim_start(s) =~= s.skip(k),
    decreases k,
{
    if k == 0 {
        assert(s.skip(0) =~= s);
    } else {
        assert(is_ws(s[0]));
        let t = s.skip(1);
        assert forall|i: int| 0 <= i < k - 1 implies is_ws(#[trigger] t[i]) by {
            assert(t[i] == s[i + 1]);
        }
        if k - 1 < t.len() {
            assert(t[k - 1] == s[k]);
        }
        lemma_trim_start_at(t, k - 1);
        assert(t.skip(k - 1) =~= s.skip(k));
    }
}

/// Keeping `h` bytes, whitespace beyond and a non-whitespace just before,
/// is exactly `trim_end`.
pub proof fn lemma_trim_end_at(s: Seq<u8>, h: int)
    requires
        0 <= h <= s.len(),
        forall|i: int| h <= i < s.len() ==> is_ws(#[trigger] s[i]),
        h == 0 || !is_ws(s[h - 1]),
    ensures
        trim_end(s) =~= s.take(h),
    decreases s.len() - h,
{
    if h == s.len() {
        assert(s.take(h) =~= s);
        if s.len() > 0 {
            assert(!is_ws(s.last()));
        }
    } else {
        assert(is_ws(s.last()));
        let t = s.drop_last();
        assert forall|i: int| h <= i < t.len() implies is_ws(#[trigger] t[i]) by {
            assert(t[i] == s[i]);
        }
        if h > 0 {
            assert(t[h - 1] == s[h - 1]);
        }
        lemma_trim_end_at(t, h);
        assert(t.take(h) =~= s.take(h));
    }
}

/// Trimmed bounds of `s[lo..hi]`: the subrange between them is the trim of
/// the subrange between `lo` and `hi`.
pub fn trim_range(s: &[u8], lo: usize, hi: usize) -> (r: (usize, usize))
    requires
        lo <= hi <= s@.len(),
    ensures
        lo <= r.0 <= r.1 <= hi,
        s@.subrange(r.0 as int, r.1 as int) =~= trim(s@.subrange(lo as int, hi as int)),
{
    let ghost t = s@.subrange(lo as int, hi as int);
    let mut a = lo;
    while a < hi && (s[a] == SP || (9 <= s[a] && s[a] <= 13))
        invariant
            lo <= a <= hi <= s@.len(),
            forall|i: int| lo <= i < a ==> is_ws(#[trigger] s@[i]),
        decreases hi - a,
    {
        a = a + 1;
    }
    let mut b = hi;
    while b > a && (s[b - 1] == SP || (9 <= s[b - 1] && s[b - 1] <= 13))
        invariant
            a <= b <= hi <= s@.len(),
            forall|i: int| b <= i < hi ==> is_ws(#[trigger] s@[i]),
        decreases b,
    {
        b = b - 1;
    }
    proof {
        assert forall|i: int| 0 <= i < a - lo implies is_ws(#[trigger] t[i]) by {
            assert(t[i] == s@[lo + i]);
        }
        if a < hi {
            assert(t[a - lo] == s@[a as int]);
        }
        lemma_trim_start_at(t, a - lo);
        let u = t.skip(a - lo);
        assert forall|i: int| b - a <= i < u.len() implies is_ws(#[trigger] u[i]) by {
            assert(u[i] == s@[a + i]);
        }
        if b > a {
            assert(u[b - a - 1] == s@[b - 1]);
        }
        lemma_trim_end_at(u, b - a);
        assert(u.take(b - a) =~= s@.subrange(a as int, b as int));
    }
    (a, b)
}

/// Index of the first `": "`, or a negative value if none.
pub open spec fn first_colon_sp(s: Seq<u8>) -> int
    decreases s.len(),
{
    if s.len() < 2 {
        -1
    } else if s[0] == COLON && s[1] == SP {
        0
    } else {
        let r = first_colon_sp(s.skip(1));
        if r < 0 {
            -1
        } else {
            r + 1
        }
    }
}

pub open spec fn colon_sp_at(s: Seq<u8>, i: int) -> bool {
    0 <= i && i + 2 <= s.len() && s[i] == COLON && s[i + 1] == SP
}

/// `first_colon_sp` finds exactly the least `": "` position.
pub proof fn lemma_first_colon_sp(s: Seq<u8>)
    ensures
        first_colon_sp(s) < 0 ==> forall|i: int| 0 <= i ==> !colon_sp_at(s, i),
        first_colon_sp(s) >= 0 ==> colon_sp_at(s, first_colon_sp(s)) && forall|i: int|
            0 <= i < first_colon_sp(s) ==> !colon_sp_at(s, i),
    decreases s.len(),
{
    if s.len() < 2 {
    } else if s[0] == COLON && s[1] == SP {
    } else {
        let t = s.skip(1);
        lemma_first_colon_sp(t);
        let r = first_colon_sp(t);
        assert forall|i: int| 1 <= i && i + 2 <= s.len() implies (colon_sp_at(s, i)
            <==> colon_sp_at(t, i - 1)) by {
            assert(t[i - 1] == s[i]);
            assert(i + 1 < s.len() ==> t[i] == s[i + 1]);
        }
        if r >= 0 {
            assert(colon_sp_at(s, r + 1));
            assert forall|i: int| 0 <= i < r + 1 implies !colon_sp_at(s, i) by {
                if i > 0 {
                    assert(!colon_sp_at(t, i - 1));
                }
            }
        } else {
            assert forall|i: int| 0 <= i implies !colon_sp_at(s, i) by {
                if i > 0 && i + 2 <= s.len() {
                    assert(!colon_sp_at(t, i - 1));
                }
            }
        }
    }
}

/// A header line split at its first `": "`: trimmed name and trimmed value.
/// A line without `": "` is not a header.
pub open spec fn parse_header_line(line: Seq<u8>) -> Option<(Seq<u8>, Seq<u8>)> {
    let i = first_colon_sp(line);
    if i < 0 {
        Option::None
    } else {
        Option::Some((trim(line.take(i)), trim(line.skip(i + 2))))
    }
}

/// Splits one header line, or reports that the line is not a header.
pub fn split_header_line(line: &[u8]) -> (r: Option<(Vec<u8>, Vec<u8>)>)
    ensures
        match r {
            Some(kv) => parse_header_line(line@) == Some((kv.0@, kv.1@)),
            None => parse_header_line(line@) is None,
        },
{
    let n = line.len();
    if n < 2 {
        proof {
            lemma_first_colon_sp(line@);
            if first_colon_sp(line@) >= 0 {
                assert(colon_sp_at(line@, first_colon_sp(line@)));
            }
        }
        return None;
    }
    let mut j: usize = 0;
    while j < n - 1 && !(line[j] == COLON && line[j + 1] == SP)
        invariant
            j <= n - 1,
            2 <= n == line@.len(),
            forall|i: int| 0 <= i < j ==> !colon_sp_at(line@, i),
        decreases n - j,
    {
        j = j + 1;
    }
    let found: Option<usize> = if j < n - 1 {
        Some(j)
    } else {
        None
    };
    match found {
        None => {
            proof {
                lemma_first_colon_sp(line@);
                if first_colon_sp(line@) >= 0 {
                    let f = first_colon_sp(line@);
                    assert(colon_sp_at(line@, f));
                    assert(f + 2 <= n);
                    assert(f < j);
                }
            }
            None
        },
        Some(i) => {
            proof {
                lemma_first_colon_sp(line@);
                let f = first_colon_sp(line@);
                if f < 0 {
                    assert(!colon_sp_at(line@, i as int));
                } else if f < i {
                    assert(!colon_sp_at(line@, f));
                } else if f > i {
                    assert(!colon_sp_at(line@, i as int));
                }
            }
            let (k0, k1) = trim_range(line, 0, i);
            let key = copy_range(line, k0, k1);
            let (v0, v1) = trim_range(line, i + 2, n);
            let value = copy_range(line, v0, v1);
            proof {
                assert(line@.subrange(0, i as int) =~= line@.take(i as int));
                assert(line@.subrange(i + 2, n as int) =~= line@.skip(i + 2));
            }
            Some((key, value))
        },
    }
}

/// Index of the first entry whose name is `k`, or a negative value.
pub open spec fn index_of_key(acc: Seq<(Seq<u8>, Seq<u8>)>, k: Seq<u8>) -> int
    decreases acc.len(),
{
    if acc.len() == 0 {
        -1
    } else if acc[0].0 == k {
        0
    } else {
        let r = index_of_key(acc.skip(1), k);
        if r < 0 {
            -1
        } else {
            r + 1
        }
    }
}

/// `index_of_key` finds exactly the least entry with that name.
pub proof fn lemma_index_of_key(acc: Seq<(Seq<u8>, Seq<u8>)>, k: Seq<u8>)
    ensures
        index_of_key(acc, k) < 0 ==> forall|i: int| 0 <= i < acc.len() ==> (#[trigger] acc[i]).0
            != k,
        index_of_key(acc, k) >= 0 ==> index_of_key(acc, k) < acc.len() && acc[index_of_key(
            acc,
            k,
        )].0 == k && forall|i: int| 0 <= i < index_of_key(acc, k) ==> (#[trigger] acc[i]).0 != k,
    decreases acc.len(),
{
    if acc.len() > 0 && acc[0].0 != k {
        let t = acc.skip(1);
        lemma_index_of_key(t, k);
        let r = index_of_key(t, k);
        if r >= 0 {
            assert(acc[r + 1] == t[r]);
            assert forall|i: int| 0 <= i < r + 1 implies (#[trigger] acc[i]).0 != k by {
                if i > 0 {
                    assert(acc[i] == t[i - 1]);
                }
            }
        } else {
            assert forall|i: int| 0 <= i < acc.len() implies (#[trigger] acc[i]).0 != k by {
                if i > 0 {
                    assert(acc[i] == t[i - 1]);
                }
            }
        }
    }
}

/// Two values joined as one multi-valued header.
pub open spec fn joined(a: Seq<u8>, b: Seq<u8>) -> Seq<u8> {
    a + seq![SEMI, SP] + b
}

/// Adds a parsed header to the mapping: a fresh name is appended, a
/// repeated name has the new value joined onto the existing one.
pub open spec fn insert_header(acc: Seq<(Seq<u8>, Seq<u8>)>, k: Seq<u8>, v: Seq<u8>) -> Seq<
    (Seq<u8>, Seq<u8>),
> {
    let i = index_of_key(acc, k);
    if i < 0 {
        acc.push((k, v))
    } else {
        acc.update(i, (acc[i].0, joined(acc[i].1, v)))
    }
}

/// One line's effect on the header mapping.
pub open spec fn header_step(acc: Seq<(Seq<u8>, Seq<u8>)>, line: Seq<u8>) -> Seq<
    (Seq<u8>, Seq<u8>),
> {
    match parse_header_line(line) {
        Option::None => acc,
        Option::Some(kv) => insert_header(acc, kv.0, kv.1),
    }
}

/// All lines folded into the mapping, in order.
pub open spec fn accumulate_headers(acc: Seq<(Seq<u8>, Seq<u8>)>, lines: Seq<Seq<u8>>) -> Seq<
    (Seq<u8>, Seq<u8>),
>
    decreases lines.len(),
{
    if lines.len() == 0 {
        acc
    } else {
        accumulate_headers(header_step(acc, lines[0]), lines.skip(1))
    }
}

/// The header mapping of a whole raw head: every line after the status
/// line, folded in order.
pub open spec fn headers_of(raw: Seq<u8>) -> Seq<(Seq<u8>, Seq<u8>)> {
    let ls = split_lines(raw);
    if ls.len() == 0 {
        seq![]
    } else {
        accumulate_headers(seq![], ls.skip(1))
    }
}

/// The views of a vector of header pairs.
pub open spec fn pairs_view(v: Seq<(Vec<u8>, Vec<u8>)>) -> Seq<(Seq<u8>, Seq<u8>)> {
    v.map(|i: int, p: (Vec<u8>, Vec<u8>)| (p.0@, p.1@))
}

/// Byte-for-byte equality of two slices.
pub fn bytes_eq(a: &[u8], b: &[u8]) -> (r: bool)
    ensures
        r <==> a@ =~= b@,
{
    let n = a.len();
    if n != b.len() {
        return false;
    }
    let mut j: usize = 0;
    while j < n
        invariant
            j <= n,
            n == a@.len(),
            n == b@.len(),
            forall|k: int| 0 <= k < j ==> a@[k] == b@[k],
        decreases n - j,
    {
        if a[j] != b[j] {
            return false;
        }
        j = j + 1;
    }
    true
}

/// Adds one parsed header to the mapping vector.
pub fn push_header(acc: &mut Vec<(Vec<u8>, Vec<u8>)>, key: Vec<u8>, value: Vec<u8>)
    ensures
        pairs_view(final(acc)@) =~= insert_header(pairs_view(old(acc)@), key@, value@),
{
    let n = acc.len();
    let mut j: usize = 0;
    while j < n
        invariant
            j <= n,
            n == acc@.len(),
            forall|i: int| 0 <= i < j ==> (#[trigger] acc@[i]).0@ != key@,
            acc@ == old(acc)@,
        decreases n - j,
    {
        if bytes_eq(acc[j].0.as_slice(), key.as_slice()) {
            proof {
                let pv = pairs_view(acc@);
                assert(pv[j as int].0 == acc@[j as int].0@);
                assert forall|i: int| 0 <= i < j implies (#[trigger] pv[i]).0 != key@ by {
                    assert(pv[i].0 == acc@[i].0@);
                }
                lemma_index_of_key(pv, key@);
                let f = index_of_key(pv, key@);
                if f < 0 {
                } else if f < j {
                } else if f > j {
                }
                assert(f == j);
            }
            let mut joined_val: Vec<u8> = Vec::new();
            joined_val.extend_from_slice(acc[j].1.as_slice());
            joined_val.push(SEMI);
            joined_val.push(SP);
            joined_val.extend_from_slice(value.as_slice());
            proof {
                assert(joined_val@ =~= joined(acc@[j as int].1@, value@));
            }
            let key_kept = copy_range(acc[j].0.as_slice(), 0, acc[j].0.len());
            proof {
                assert(key_kept@ =~= acc@[j as int].0@);
            }
            acc[j] = (key_kept, joined_val);
            proof {
                let pvold = pairs_view(old(acc)@);
                assert(pairs_view(acc@) =~= pvold.update(
                    j as int,
                    (pvold[j as int].0, joined(pvold[j as int].1, value@)),
                ));
            }
            return ;
        }
        j = j + 1;
    }
    proof {
        let pv = pairs_view(acc@);
        assert forall|i: int| 0 <= i < pv.len() implies (#[trigger] pv[i]).0 != key@ by {
            assert(pv[i].0 == acc@[i].0@);
        }
        lemma_index_of_key(pv, key@);
        if index_of_key(pv, key@) >= 0 {
            assert(pv[index_of_key(pv, key@)].0 == key@);
        }
    }
    acc.push((key, value));
    proof {
        assert(pairs_view(acc@) =~= pairs_view(old(acc)@).push(
            (acc@.last().0@, acc@.last().1@),
        ));
    }
}

/// The parsed head: the status code and the header mapping.
pub fn parse_head(raw: &[u8]) -> (r: (u16, Vec<(Vec<u8>, Vec<u8>)>))
    ensures
        r.0 == status_of(raw@),
        pairs_view(r.1@) =~= headers_of(raw@),
{
    let lines = split_into_lines(raw);
    if lines.len() == 0 {
        let empty: Vec<(Vec<u8>, Vec<u8>)> = Vec::new();
        proof {
            assert(pairs_view(empty@) =~= Seq::<(Seq<u8>, Seq<u8>)>::empty());
        }
        return (0, empty);
    }
    let code = parse_status_line(lines[0].as_slice());
    proof {
        assert(lines_view(lines@)[0] == lines@[0]@);
    }
    let mut hs: Vec<(Vec<u8>, Vec<u8>)> = Vec::new();
    let n = lines.len();
    let mut idx: usize = 1;
    proof {
        assert(pairs_view(hs@) =~= Seq::<(Seq<u8>, Seq<u8>)>::empty());
        assert(split_lines(raw@).len() > 0);
        assert(headers_of(raw@) == accumulate_headers(seq![], split_lines(raw@).skip(1)));
        assert(accumulate_headers(pairs_view(hs@), lines_view(lines@).skip(1))
            == accumulate_headers(seq![], split_lines(raw@).skip(1)));
    }
    while idx < n
        invariant
            1 <= idx <= n,
            n == lines@.len(),
            headers_of(raw@) =~= accumulate_headers(
                pairs_view(hs@),
                lines_view(lines@).skip(idx as int),
            ),
            lines_view(lines@) =~= split_lines(raw@),
        decreases n - idx,
    {
        let ghost rest = lines_view(lines@).skip(idx as int);
        let ghost acc0 = pairs_view(hs@);
        match split_header_line(lines[idx].as_slice()) {
            Some((key, value)) => {
                proof {
                    assert(rest[0] == lines@[idx as int]@);
                }
                push_header(&mut hs, key, value);
            },
            None => {
                proof {
                    assert(rest[0] == lines@[idx as int]@);
                }
            },
        }
        proof {
            assert(rest.skip(1) =~= lines_view(lines@).skip(idx + 1));
            assert(accumulate_headers(acc0, rest) == accumulate_headers(
                header_step(acc0, rest[0]),
                rest.skip(1),
            ));
        }
        idx = idx + 1;
    }
    proof {
        assert(lines_view(lines@).skip(n as int).len() == 0);
    }
    (code, hs)
}

/// ASCII lower-casing of one byte.
pub open spec fn ascii_lower(b: u8) -> u8 {
    if 65 <= b <= 90 {
        (b + 32) as u8
    } else {
        b
    }
}

/// ASCII lower-casing of a byte string.
pub open spec fn lower_seq(s: Seq<u8>) -> Seq<u8> {
    s.map(|i: int, b: u8| ascii_lower(b))
}

/// ASCII case-insensitive equality of two byte strings.
pub fn eq_ignore_ascii_case_bytes(a: &[u8], b: &[u8]) -> (r: bool)
    ensures
        r <==> lower_seq(a@) =~= lower_seq(b@),
{
    let n = a.len();
    if n != b.len() {
        return false;
    }
    let mut j: usize = 0;
    while j < n
        invariant
            j <= n,
            n == a@.len(),
            n == b@.len(),
            forall|k: int| 0 <= k < j ==> ascii_lower(a@[k]) == ascii_lower(b@[k]),
        decreases n - j,
    {
        let x = a[j];
        let y = b[j];
        let xl = if 65 <= x && x <= 90 {
            x + 32
        } else {
            x
        };
        let yl = if 65 <= y && y <= 90 {
            y + 32
        } else {
            y
        };
        if xl != yl {
            proof {
                assert(lower_seq(a@)[j as int] == ascii_lower(a@[j as int]));
                assert(lower_seq(b@)[j as int] == ascii_lower(b@[j as int]));
            }
            return false;
        }
        j = j + 1;
    }
    true
}

} // verus!
