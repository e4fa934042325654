//! The per-client connection cache: hostname to shared native connection.
//!
//! A client reuses one native connection per distinct hostname: the first
//! request to a host connects and caches, every later request to the same
//! host gets the cached handle back. Nothing is ever evicted, so the cache is
//! bounded by the traffic's distinct hosts. The caller holds the cache under
//! its lock for the lookup-or-insert only. Hostnames are compared by their
//! bytes; handles are the native layer's pointer-sized identifiers.

use vstd::prelude::*;

verus! {

/// Index of the first entry with key `k`, or a negative value.
pub open spec fn key_index(m: Seq<(Seq<u8>, u64)>, k: Seq<u8>) -> int
    decreases m.len(),
{
    if m.len() == 0 {
        -1
    } else if m[0].0 == k {
        0
    } else {
        let r = key_index(m.skip(1), k);
        if r < 0 {
            -1
        } else {
            r + 1
        }
    }
}

/// `key_index` finds exactly the least entry with that key.
pub proof fn lemma_key_index(m: Seq<(Seq<u8>, u64)>, k: Seq<u8>)
    ensures
        key_index(m, k) < 0 ==> forall|i: int| 0 <= i < m.len() ==> (#[trigger] m[i]).0 != k,
        key_index(m, k) >= 0 ==> key_index(m, k) < m.len() && m[key_index(m, k)].0 == k
            && forall|i: int| 0 <= i < key_index(m, k) ==> (#[trigger] m[i]).0 != k,
    decreases m.len(),
{
    if m.len() > 0 && m[0].0 != k {
        let t = m.skip(1);
        lemma_key_index(t, k);
        let r = key_index(t, k);
        if r >= 0 {
            assert(m[r + 1] == t[r]);
            assert forall|i: int| 0 <= i < r + 1 implies (#[trigger] m[i]).0 != k by {
                if i > 0 {
                    assert(m[i] == t[i - 1]);
                }
            }
        } else {
            assert forall|i: int| 0 <= i < m.len() implies (#[trigger] m[i]).0 != k by {
                if i > 0 {
                    assert(m[i] == t[i - 1]);
                }
            }
        }
    }
}

pub struct ConnectionCache {
    entries: Vec<(Vec<u8>, u64)>,
}

impl ConnectionCache {
    /// The cached entries, hostname bytes paired with handles, oldest first.
    pub closed spec fn entries_view(&self) -> Seq<(Seq<u8>, u64)> {
        self.entries@.map(|i: int, p: (Vec<u8>, u64)| (p.0@, p.1))
    }

    /// The invariant: one entry per hostname, never more.
    pub closed spec fn wf(&self) -> bool {
        forall|i: int, j: int|
            0 <= i < j < self.entries_view().len() ==> (#[trigger] self.entries_view()[i]).0 != (
            #[trigger] self.entries_view()[j]).0
    }

    pub open spec fn contains_host(&self, h: Seq<u8>) -> bool {
        key_index(self.entries_view(), h) >= 0
    }

    /// The handle cached for `h`, meaningful when `contains_host(h)`.
    pub open spec fn handle_of(&self, h: Seq<u8>) -> u64 {
        self.entries_view()[key_index(self.entries_view(), h)].1
    }

    pub fn new() -> (r: Self)
        ensures
            r.wf(),
            r.entries_view() =~= Seq::<(Seq<u8>, u64)>::empty(),
    {
        ConnectionCache { entries: Vec::new() }
    }

    pub fn len(&self) -> (r: usize)
        ensures
            r == self.entries_view().len(),
    {
        self.entries.len()
    }

    /// Looks a hostname up, returning the cached handle on a hit.
    pub fn lookup(&self, hostname: &[u8]) -> (r: Option<u64>)
        requires
            self.wf(),
        ensures
            match r {
                Some(h) => self.contains_host(hostname@) && h == self.handle_of(hostname@),
                None => !self.contains_host(hostname@),
            },
    {
        let ghost m = self.entries_view();
        let n = self.entries.len();
        let mut j: usize = 0;
        while j < n
            invariant
                j <= n,
                n == self.entries@.len(),
                m == self.entries_view(),
                forall|i: int| 0 <= i < j ==> (#[trigger] m[i]).0 != hostname@,
            decreases n - j,
        {
            if crate::headers::bytes_eq(self.entries[j].0.as_slice(), hostname) {
                proof {
                    assert(m[j as int].0 == self.entries@[j as int].0@);
                    lemma_key_index(m, hostname@);
                    let f = key_index(m, hostname@);
                    if f < 0 {
                    } else if f < j {
                    } else if f > j {
                    }
                    assert(f == j);
                }
                return Some(self.entries[j].1);
            }
            proof {
                assert(m[j as int].0 == self.entries@[j as int].0@);
            }
            j = j + 1;
        }
        proof {
            lemma_key_index(m, hostname@);
            if key_index(m, hostname@) >= 0 {
                assert(m[key_index(m, hostname@)].0 == hostname@);
            }
        }
        None
    }

    /// Caches a freshly connected handle for a hostname seen for the first
    /// time.
    pub fn insert(&mut self, hostname: Vec<u8>, handle: u64)
        requires
            old(self).wf(),
            !old(self).contains_host(hostname@),
        ensures
            final(self).wf(),
            final(self).entries_view() =~= old(self).entries_view().push((hostname@, handle)),
            final(self).contains_host(hostname@),
            final(self).handle_of(hostname@) == handle,
    {
        proof {
            lemma_key_index(old(self).entries_view(), hostname@);
        }
        self.entries.push((hostname, handle));
        proof {
            let m = self.entries_view();
            let m0 = old(self).entries_view();
            assert(m =~= m0.push((hostname@, handle)));
            assert forall|i: int, j: int| 0 <= i < j < m.len() implies (#[trigger] m[i]).0 != (
            #[trigger] m[j]).0 by {
                if j == m.len() - 1 {
                    assert(m[i] == m0[i]);
                }
            }
            lemma_key_index(m, hostname@);
            let f = key_index(m, hostname@);
            if f < 0 {
                assert(m[m.len() - 1].0 == hostname@);
            }
            if f < m.len() - 1 && f >= 0 {
                assert(m0[f] == m[f]);
            }
        }
    }

    /// The lookup-or-insert a request performs under the client's lock:
    /// `fresh_handle` is the natively connected handle to cache if — and
    /// only if — the host has no entry yet. Returns the handle every request
    /// to this host shares, and whether this call created the entry.
    pub fn get_or_insert(&mut self, hostname: &[u8], fresh_handle: u64) -> (r: (u64, bool))
        requires
            old(self).wf(),
        ensures
            final(self).wf(),
            final(self).contains_host(hostname@),
            r.0 == final(self).handle_of(hostname@),
            // A hit returns the cached handle and changes nothing.
            old(self).contains_host(hostname@) ==> !r.1 && r.0 == old(self).handle_of(hostname@)
                && final(self).entries_view() == old(self).entries_view(),
            // A miss caches exactly one new entry for this host.
            !old(self).contains_host(hostname@) ==> r.1 && r.0 == fresh_handle
                && final(self).entries_view() =~= old(self).entries_view().push(
                (hostname@, fresh_handle),
            ),
    {
        match self.lookup(hostname) {
            Some(h) => (h, false),
            None => {
                let key = crate::headers::copy_range(hostname, 0, hostname.len());
                proof {
                    assert(key@ =~= hostname@);
                }
                self.insert(key, fresh_handle);
                (fresh_handle, true)
            },
        }
    }

    /// However many requests target one host, the cache never holds more
    /// than a single entry for it.
    pub proof fn lemma_single_entry_per_host(&self, h: Seq<u8>, j: int)
        requires
            self.wf(),
            0 <= j < self.entries_view().len(),
            self.entries_view()[j].0 == h,
        ensures
            j == key_index(self.entries_view(), h),
            self.contains_host(h),
    {
        let m = self.entries_view();
        lemma_key_index(m, h);
        let f = key_index(m, h);
        if f < 0 {
        } else if f < j {
        } else if f > j {
        }
    }
}

} // verus!
