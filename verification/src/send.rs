//! The request-upload state machine.
//!
//! The caller's body arrives as a pull-stream of chunks; the native stack
//! accepts bytes only when it signals readiness, and may accept less than it
//! was offered. A staging buffer decouples the two sides. Ghost histories of
//! the bytes pulled from the source and the bytes the native layer accepted
//! make the upload exact: once the source is exhausted and the buffer has
//! drained, the native layer has received precisely the source's bytes, in
//! order, with no gap and no overlap.

use vstd::prelude::*;

use crate::err_code::NativeError;
use crate::rwbuf::ReadWriteBuffer;

verus! {

/// Phases of one outbound request, as the poll function sees them.
#[derive(Clone, Copy, Debug, PartialEq, Eq, Structural)]
pub enum RequestPhase {
    /// Nothing issued yet; the first poll must open the native exchange.
    Init,
    /// The body is being streamed into the native layer.
    SendingBody,
    /// Every body byte has been accepted; the response may be requested.
    BodySent,
    /// The native layer has produced the raw response head.
    HeadersReceived,
    /// A native or source error ended the request; terminal.
    Failed,
}

/// Stages body bytes between the caller's pull-stream and the native writes.
pub struct BodySender<const S: usize> {
    buf: ReadWriteBuffer<S>,
    body_len: usize,
    sent_body_len: usize,
    source_done: bool,
    pulled: Ghost<Seq<u8>>,
    written: Ghost<Seq<u8>>,
}

impl<const S: usize> BodySender<S> {
    /// Every byte pulled from the caller's body source, in order.
    pub closed spec fn pulled(&self) -> Seq<u8> {
        self.pulled@
    }

    /// Every byte the native layer has accepted, in order.
    pub closed spec fn written(&self) -> Seq<u8> {
        self.written@
    }

    /// Bytes pulled but not yet accepted by the native layer.
    pub closed spec fn buffered(&self) -> Seq<u8> {
        self.buf.readable()
    }

    /// The body length the request declared up front.
    pub closed spec fn declared_len(&self) -> int {
        self.body_len as int
    }

    /// Bytes the native layer has accepted so far.
    pub closed spec fn sent_len(&self) -> int {
        self.sent_body_len as int
    }

    pub closed spec fn source_done(&self) -> bool {
        self.source_done
    }

    /// The invariant: accepted bytes followed by staged bytes are exactly the
    /// pulled bytes — nothing lost, duplicated or reordered in between.
    pub closed spec fn wf(&self) -> bool {
        &&& self.buf.wf()
        &&& self.pulled@ =~= self.written@ + self.buf.readable()
        &&& self.written@.len() == self.sent_body_len
    }

    pub fn new(body_len: usize) -> (r: Self)
        ensures
            r.wf(),
            r.declared_len() == body_len,
            r.pulled() =~= Seq::<u8>::empty(),
            r.written() =~= Seq::<u8>::empty(),
            r.buffered() =~= Seq::<u8>::empty(),
            !r.source_done(),
            r.sent_len() == 0,
    {
        BodySender {
            buf: ReadWriteBuffer::new(),
            body_len,
            sent_body_len: 0,
            source_done: false,
            pulled: Ghost(Seq::empty()),
            written: Ghost(Seq::empty()),
        }
    }

    /// How many more bytes a source read may hand over right now.
    pub fn writable_capacity(&self) -> (r: usize)
        requires
            self.wf(),
        ensures
            r == S as int - self.buf_write_len(),
    {
        self.buf.get_writable_len()
    }

    /// The staging buffer's write-cursor position.
    pub closed spec fn buf_write_len(&self) -> int {
        self.buf.spec_write_len()
    }

    /// Accepts one chunk the body source produced. Zero-length chunks are the
    /// source's business to avoid; exhaustion is reported separately.
    pub fn accept_chunk(&mut self, chunk: &[u8])
        requires
            old(self).wf(),
            !old(self).source_done(),
            chunk@.len() <= S as int - old(self).buf_write_len(),
        ensures
            final(self).wf(),
            final(self).pulled() =~= old(self).pulled() + chunk@,
            final(self).written() == old(self).written(),
            final(self).buffered() =~= old(self).buffered() + chunk@,
            !final(self).source_done(),
            final(self).declared_len() == old(self).declared_len(),
    {
        self.buf.push_bytes(chunk);
        proof {
            self.pulled@ = self.pulled@ + chunk@;
        }
    }

    /// Records that the body source reported end of stream.
    pub fn source_exhausted(&mut self)
        requires
            old(self).wf(),
        ensures
            final(self).wf(),
            final(self).source_done(),
            final(self).pulled() == old(self).pulled(),
            final(self).written() == old(self).written(),
            final(self).buffered() == old(self).buffered(),
            final(self).declared_len() == old(self).declared_len(),
    {
        self.source_done = true;
    }

    /// Borrows the staged bytes the next native write should offer.
    pub fn pending_slice(&self) -> (r: &[u8])
        requires
            self.wf(),
        ensures
            r@ == self.buffered(),
    {
        self.buf.get_readable_slice()
    }

    /// Records that the native layer accepted the first `n` staged bytes —
    /// a native write may take less than it was offered, and the remainder
    /// stays staged rather than being dropped.
    pub fn mark_written(&mut self, n: usize)
        requires
            old(self).wf(),
            n <= old(self).buffered().len(),
            old(self).sent_len() + n <= usize::MAX,
        ensures
            final(self).wf(),
            final(self).written() =~= old(self).written() + old(self).buffered().take(n as int),
            final(self).buffered() =~= old(self).buffered().skip(n as int),
            final(self).pulled() == old(self).pulled(),
            final(self).source_done() == old(self).source_done(),
            final(self).sent_len() == old(self).sent_len() + n,
            final(self).declared_len() == old(self).declared_len(),
    {
        let ghost before = self.buf.readable();
        proof {
            self.written@ = self.written@ + before.take(n as int);
        }
        self.buf.increase_read_len(n);
        self.sent_body_len = self.sent_body_len + n;
        proof {
            assert(before.take(n as int) + before.skip(n as int) =~= before);
            assert(self.pulled@ =~= self.written@ + self.buf.readable());
        }
    }

    /// Bytes the native layer has accepted so far, as a value.
    pub fn sent(&self) -> (r: usize)
        requires
            self.wf(),
        ensures
            r == self.sent_len(),
    {
        self.sent_body_len
    }

    /// The declared body length, as a value.
    pub fn declared(&self) -> (r: usize)
        ensures
            r == self.declared_len(),
    {
        self.body_len
    }

    /// True exactly when the source is exhausted and every pulled byte has
    /// been accepted: the request body is fully sent.
    pub fn is_complete(&self) -> (r: bool)
        requires
            self.wf(),
        ensures
            r <==> (self.source_done() && self.buffered().len() == 0),
            r ==> self.written() =~= self.pulled(),
    {
        self.source_done && self.buf.is_empty()
    }

    /// Once the source is exhausted and the staging buffer has drained, the
    /// native layer has accepted exactly the source's bytes, in order; if the
    /// source produced the declared length, that many bytes went out.
    pub proof fn lemma_body_fully_sent(&self)
        requires
            self.wf(),
            self.source_done(),
            self.buffered().len() == 0,
        ensures
            self.written() =~= self.pulled(),
            self.pulled().len() == self.declared_len() ==> self.sent_len() == self.declared_len(),
    {
    }
}

/// One outbound request: the phase discipline around the body sender.
pub struct RequestFlow<const S: usize> {
    phase: RequestPhase,
    sender: BodySender<S>,
    raw_headers: Vec<u8>,
    error: Option<NativeError>,
    write_in_flight: Option<usize>,
}

impl<const S: usize> RequestFlow<S> {
    pub closed spec fn phase(&self) -> RequestPhase {
        self.phase
    }

    pub closed spec fn sender(&self) -> BodySender<S> {
        self.sender
    }

    pub closed spec fn raw_headers(&self) -> Seq<u8> {
        self.raw_headers@
    }

    pub closed spec fn spec_error(&self) -> Option<NativeError> {
        self.error
    }

    /// The byte count of the one native write the driver may have issued
    /// and not yet seen complete.
    pub closed spec fn write_in_flight(&self) -> Option<usize> {
        self.write_in_flight
    }

    pub closed spec fn wf(&self) -> bool {
        &&& self.sender.wf()
        &&& (self.phase == RequestPhase::Failed <==> self.error is Some)
        &&& (self.phase == RequestPhase::BodySent || self.phase == RequestPhase::HeadersReceived
            ==> self.sender.source_done() && self.sender.buffered().len() == 0)
        &&& (self.write_in_flight matches Some(n) ==> self.phase == RequestPhase::SendingBody && 0
            < n <= self.sender.buffered().len())
    }

    pub fn new(body_len: usize) -> (r: Self)
        ensures
            r.wf(),
            r.phase() == RequestPhase::Init,
            r.sender().declared_len() == body_len,
            r.sender().pulled() =~= Seq::<u8>::empty(),
            r.sender().written() =~= Seq::<u8>::empty(),
            r.sender().buffered() =~= Seq::<u8>::empty(),
            r.sender().sent_len() == 0,
            !r.sender().source_done(),
            r.write_in_flight() is None,
    {
        RequestFlow {
            phase: RequestPhase::Init,
            sender: BodySender::new(body_len),
            raw_headers: Vec::new(),
            error: None,
            write_in_flight: None,
        }
    }

    /// The first poll: open the native exchange, declaring the body length.
    pub fn start(&mut self) -> (r: usize)
        requires
            old(self).wf(),
            old(self).phase() == RequestPhase::Init,
        ensures
            final(self).wf(),
            final(self).phase() == RequestPhase::SendingBody,
            r == old(self).sender().declared_len(),
            final(self).sender() == old(self).sender(),
            final(self).write_in_flight() is None,
    {
        self.phase = RequestPhase::SendingBody;
        self.sender.body_len
    }

    /// Feeds one chunk the body source produced into the staging buffer.
    pub fn feed_chunk(&mut self, chunk: &[u8])
        requires
            old(self).wf(),
            old(self).phase() == RequestPhase::SendingBody,
            !old(self).sender().source_done(),
            chunk@.len() <= S as int - old(self).sender().buf_write_len(),
        ensures
            final(self).wf(),
            final(self).phase() == RequestPhase::SendingBody,
            final(self).sender().pulled() =~= old(self).sender().pulled() + chunk@,
            final(self).sender().written() == old(self).sender().written(),
            final(self).sender().buffered() =~= old(self).sender().buffered() + chunk@,
            final(self).sender().declared_len() == old(self).sender().declared_len(),
            !final(self).sender().source_done(),
            final(self).write_in_flight() == old(self).write_in_flight(),
    {
        self.sender.accept_chunk(chunk);
    }

    /// Records that the body source reported end of stream.
    pub fn body_source_exhausted(&mut self)
        requires
            old(self).wf(),
            old(self).phase() == RequestPhase::SendingBody,
        ensures
            final(self).wf(),
            final(self).phase() == RequestPhase::SendingBody,
            final(self).sender().source_done(),
            final(self).sender().pulled() == old(self).sender().pulled(),
            final(self).sender().written() == old(self).sender().written(),
            final(self).sender().buffered() == old(self).sender().buffered(),
            final(self).sender().declared_len() == old(self).sender().declared_len(),
            final(self).write_in_flight() == old(self).write_in_flight(),
    {
        self.sender.source_exhausted();
    }

    /// How many more bytes a source read may hand over right now.
    pub fn body_capacity(&self) -> (r: usize)
        requires
            self.wf(),
        ensures
            r == S as int - self.sender().buf_write_len(),
    {
        self.sender.writable_capacity()
    }

    /// Borrows the staged bytes the next native write should offer.
    pub fn pending_body(&self) -> (r: &[u8])
        requires
            self.wf(),
        ensures
            r@ == self.sender().buffered(),
    {
        self.sender.pending_slice()
    }

    /// Records that a synchronous native write accepted `n` staged bytes —
    /// the stream-pair backends learn the accepted count at the call itself.
    /// No event-paced write may be outstanding.
    pub fn body_written(&mut self, n: usize)
        requires
            old(self).wf(),
            old(self).phase() == RequestPhase::SendingBody,
            old(self).write_in_flight() is None,
            n <= old(self).sender().buffered().len(),
            old(self).sender().sent_len() + n <= usize::MAX,
        ensures
            final(self).wf(),
            final(self).phase() == RequestPhase::SendingBody,
            final(self).sender().written() =~= old(self).sender().written() + old(
                self,
            ).sender().buffered().take(n as int),
            final(self).sender().buffered() =~= old(self).sender().buffered().skip(n as int),
            final(self).sender().pulled() == old(self).sender().pulled(),
            final(self).sender().source_done() == old(self).sender().source_done(),
            final(self).sender().sent_len() == old(self).sender().sent_len() + n,
            final(self).sender().declared_len() == old(self).sender().declared_len(),
            final(self).write_in_flight() is None,
    {
        self.sender.mark_written(n);
    }

    /// Records that a native write of the first `n` staged bytes has been
    /// issued. Only one native write may be outstanding on a handle: a
    /// second one before the completion event does not verify.
    pub fn begin_write(&mut self, n: usize)
        requires
            old(self).wf(),
            old(self).phase() == RequestPhase::SendingBody,
            old(self).write_in_flight() is None,
            0 < n <= old(self).sender().buffered().len(),
        ensures
            final(self).wf(),
            final(self).phase() == RequestPhase::SendingBody,
            final(self).write_in_flight() == Some(n),
            final(self).sender() == old(self).sender(),
    {
        self.write_in_flight = Some(n);
    }

    /// Consumes the completion event of the one outstanding native write:
    /// its bytes are now accepted, and the next write may be issued.
    pub fn write_completed(&mut self)
        requires
            old(self).wf(),
            old(self).write_in_flight() is Some,
            old(self).sender().sent_len() + old(self).write_in_flight().unwrap() <= usize::MAX,
        ensures
            final(self).wf(),
            final(self).phase() == RequestPhase::SendingBody,
            final(self).write_in_flight() is None,
            ({
                let n = old(self).write_in_flight().unwrap() as int;
                &&& final(self).sender().written() =~= old(self).sender().written() + old(
                    self,
                ).sender().buffered().take(n)
                &&& final(self).sender().buffered() =~= old(self).sender().buffered().skip(n)
                &&& final(self).sender().sent_len() == old(self).sender().sent_len() + n
            }),
            final(self).sender().pulled() == old(self).sender().pulled(),
            final(self).sender().source_done() == old(self).sender().source_done(),
            final(self).sender().declared_len() == old(self).sender().declared_len(),
    {
        let n = self.write_in_flight.unwrap();
        self.write_in_flight = None;
        self.sender.mark_written(n);
    }

    /// Whether a native write is outstanding, as a value for the driver.
    pub fn has_write_in_flight(&self) -> (r: bool)
        ensures
            r == (self.write_in_flight() is Some),
    {
        self.write_in_flight.is_some()
    }

    /// After the upload step: when the body is fully sent, move on and ask
    /// the driver to request the response head.
    pub fn try_finish_body(&mut self) -> (r: bool)
        requires
            old(self).wf(),
            old(self).phase() == RequestPhase::SendingBody,
        ensures
            final(self).wf(),
            r <==> (old(self).sender().source_done() && old(self).sender().buffered().len() == 0),
            r ==> final(self).phase() == RequestPhase::BodySent && final(self).sender().written()
                =~= final(self).sender().pulled(),
            !r ==> final(self).phase() == RequestPhase::SendingBody,
            final(self).sender() == old(self).sender(),
            final(self).write_in_flight() == old(self).write_in_flight(),
    {
        if self.sender.is_complete() {
            self.phase = RequestPhase::BodySent;
            true
        } else {
            false
        }
    }

    /// The bridge captured the raw response head.
    pub fn on_headers(&mut self, raw: Vec<u8>)
        requires
            old(self).wf(),
            old(self).phase() == RequestPhase::BodySent,
        ensures
            final(self).wf(),
            final(self).phase() == RequestPhase::HeadersReceived,
            final(self).raw_headers() == raw@,
            final(self).sender() == old(self).sender(),
    {
        self.raw_headers = raw;
        self.phase = RequestPhase::HeadersReceived;
    }

    /// A native or source error ends the request.
    pub fn fail(&mut self, e: NativeError)
        requires
            old(self).wf(),
        ensures
            final(self).wf(),
            final(self).phase() == RequestPhase::Failed,
            final(self).spec_error() == Some(e),
            final(self).write_in_flight() is None,
    {
        self.error = Some(e);
        self.write_in_flight = None;
        self.phase = RequestPhase::Failed;
    }

    /// Once the request has reached the body-sent phase, the native layer
    /// has accepted exactly the bytes the body source produced, in order,
    /// with no gap and no overlap; a source that produced the declared
    /// length had that many bytes written out.
    pub proof fn lemma_whole_body_written(&self)
        requires
            self.wf(),
            self.phase() == RequestPhase::BodySent || self.phase() == RequestPhase::HeadersReceived,
        ensures
            self.sender().written() =~= self.sender().pulled(),
            self.sender().pulled().len() == self.sender().declared_len() ==> self.sender().sent_len()
                == self.sender().declared_len(),
    {
        self.sender.lemma_body_fully_sent();
    }

    /// Resolves the finished request: the raw response head, to be parsed,
    /// and a fresh download machine for the body — request-scoped state is
    /// not reused by the response.
    pub fn into_response(self) -> (r: (Vec<u8>, crate::recv::ResponseReader))
        requires
            self.wf(),
            self.phase() == RequestPhase::HeadersReceived,
        ensures
            r.0@ == self.raw_headers(),
            r.1.wf(),
            r.1.phase() == crate::recv::RecvPhase::Init,
            r.1.delivered() =~= Seq::<u8>::empty(),
            r.1.consumed() =~= Seq::<u8>::empty(),
    {
        (self.raw_headers, crate::recv::ResponseReader::new())
    }
}

} // verus!
