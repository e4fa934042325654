//! Fixed-capacity transfer buffer staging the bytes of one native read or
//! write at a time.
//!
//! The buffer tracks a write cursor (how much of it holds data) and a read
//! cursor (how much of that data has been consumed). Its invariant: the read
//! cursor never passes the write cursor, the write cursor never passes the
//! capacity, and the buffer is logically empty exactly when the two cursors
//! meet — at which point both snap back to the start so the space is reused.

use vstd::prelude::*;

verus! {

#[derive(Debug)]
pub struct ReadWriteBuffer<const S: usize> {
    buf: Vec<u8>,
    read_len: usize,
    write_len: usize,
}

impl<const S: usize> ReadWriteBuffer<S> {
    /// The buffer's invariant: cursors in range, and the cursors rest at the
    /// start whenever they meet.
    pub closed spec fn wf(&self) -> bool {
        &&& self.buf@.len() == S
        &&& self.read_len <= self.write_len <= S
        &&& (self.read_len == self.write_len ==> self.read_len == 0)
    }

    pub closed spec fn spec_read_len(&self) -> int {
        self.read_len as int
    }

    pub closed spec fn spec_write_len(&self) -> int {
        self.write_len as int
    }

    /// All bytes of the underlying storage, staged or not.
    pub closed spec fn stored(&self) -> Seq<u8> {
        self.buf@
    }

    /// The staged bytes not yet consumed: the window between the two cursors.
    pub closed spec fn readable(&self) -> Seq<u8> {
        self.buf@.subrange(self.read_len as int, self.write_len as int)
    }

    pub fn new() -> (r: Self)
        ensures
            r.wf(),
            r.readable() =~= Seq::<u8>::empty(),
            r.spec_read_len() == 0,
            r.spec_write_len() == 0,
    {
        ReadWriteBuffer { buf: vec![0u8; S], read_len: 0, write_len: 0 }
    }

    pub fn is_full(&self) -> (r: bool)
        requires
            self.wf(),
        ensures
            r <==> self.spec_write_len() == S as int,
    {
        self.write_len == S
    }

    pub fn get_writable_len(&self) -> (r: usize)
        requires
            self.wf(),
        ensures
            r == S as int - self.spec_write_len(),
    {
        S - self.write_len
    }

    /// Copies `data` into the free space behind the write cursor and advances
    /// the cursor over it, extending the readable window by exactly `data`.
    pub fn push_bytes(&mut self, data: &[u8])
        requires
            old(self).wf(),
            data@.len() <= S as int - old(self).spec_write_len(),
        ensures
            final(self).wf(),
            final(self).readable() =~= old(self).readable() + data@,
            final(self).spec_read_len() == old(self).spec_read_len(),
            final(self).spec_write_len() == old(self).spec_write_len() + data@.len(),
    {
        let n = data.len();
        let base = self.write_len;
        let mut j: usize = 0;
        while j < n
            invariant
                old(self).wf(),
                n == data@.len(),
                base == old(self).spec_write_len(),
                n <= S as int - base,
                j <= n,
                self.read_len == old(self).read_len,
                self.write_len == old(self).write_len,
                self.buf@.len() == S,
                forall|i: int| 0 <= i < base ==> self.buf@[i] == old(self).buf@[i],
                forall|k: int| 0 <= k < j ==> self.buf@[base + k] == data@[k],
            decreases n - j,
        {
            self.buf[base + j] = data[j];
            j = j + 1;
        }
        self.write_len = self.write_len + n;
    }

    /// Declares `len` more bytes of the underlying storage as staged data,
    /// moving only the write cursor; the bytes exposed are whatever the
    /// storage already holds there.
    pub fn increase_write_len(&mut self, len: usize)
        requires
            old(self).wf(),
            len <= S as int - old(self).spec_write_len(),
        ensures
            final(self).wf(),
            final(self).spec_read_len() == old(self).spec_read_len(),
            final(self).spec_write_len() == old(self).spec_write_len() + len,
            final(self).readable() =~= old(self).readable() + old(self).stored().subrange(
                old(self).spec_write_len(),
                old(self).spec_write_len() + len,
            ),
    {
        self.write_len = self.write_len + len;
    }

    /// Borrows the window of staged, unconsumed bytes.
    pub fn get_readable_slice(&self) -> (r: &[u8])
        requires
            self.wf(),
        ensures
            r@ == self.readable(),
    {
        vstd::slice::slice_subrange(self.buf.as_slice(), self.read_len, self.write_len)
    }

    /// Consumes `len` staged bytes. When the whole window has been consumed,
    /// both cursors snap back to the start so the space can be refilled.
    pub fn increase_read_len(&mut self, len: usize)
        requires
            old(self).wf(),
            len <= old(self).readable().len(),
        ensures
            final(self).wf(),
            final(self).readable() =~= old(self).readable().skip(len as int),
            old(self).spec_read_len() + len == old(self).spec_write_len()
                ==> final(self).spec_read_len() == 0 && final(self).spec_write_len() == 0,
            old(self).spec_read_len() + len < old(self).spec_write_len()
                ==> final(self).spec_read_len() == old(self).spec_read_len() + len
                    && final(self).spec_write_len() == old(self).spec_write_len(),
    {
        self.read_len = self.read_len + len;
        if self.read_len == self.write_len {
            self.read_len = 0;
            self.write_len = 0;
        }
    }

    pub fn is_empty(&self) -> (r: bool)
        requires
            self.wf(),
        ensures
            r <==> self.readable().len() == 0,
            r <==> (self.spec_read_len() == 0 && self.spec_write_len() == 0),
    {
        self.read_len == 0 && self.write_len == 0
    }

    pub fn get_readable_len(&self) -> (r: usize)
        requires
            self.wf(),
        ensures
            r == self.readable().len(),
    {
        self.write_len - self.read_len
    }

    pub fn is_readable(&self) -> (r: bool)
        requires
            self.wf(),
        ensures
            r <==> self.readable().len() > 0,
    {
        self.get_readable_len() > 0
    }
}

impl<const S: usize> Default for ReadWriteBuffer<S> {
    /// An empty buffer of capacity `S`.
    fn default() -> (r: Self)
        ensures
            r.wf(),
            r.readable() =~= Seq::<u8>::empty(),
            r.spec_read_len() == 0,
            r.spec_write_len() == 0,
    {
        ReadWriteBuffer::new()
    }
}

} // verus!
