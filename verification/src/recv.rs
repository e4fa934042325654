//! The response-download state machine.
//!
//! The native stack delivers the body as a series of chunks, each announced by
//! a callback; the caller pulls bytes through a poll-based read. This machine
//! sits between the two: chunks are deposited on one side, reads drain them on
//! the other. Two ghost histories — every byte the native layer delivered and
//! every byte handed to the caller — make the accounting exact: nothing is
//! duplicated, nothing is dropped, and once the empty chunk marks end of
//! stream every further read reports end of stream again, never an error.

use vstd::prelude::*;

use crate::err_code::NativeError;

verus! {

/// Phases of the download, as the poll function sees them.
#[derive(Clone, Copy, Debug, PartialEq, Eq, Structural)]
pub enum RecvPhase {
    /// No native read has been asked for yet.
    Init,
    /// The staged chunk is drained and the native layer owes us an event.
    AwaitingData,
    /// The staged chunk still holds bytes for the caller.
    Buffered,
    /// The native layer reported end of stream.
    FinishedData,
    /// A native error was delivered; terminal.
    Failed,
}

/// What one poll of the download asks of its driver.
pub enum ReadStep {
    /// Hand these bytes to the caller.
    Copied(Vec<u8>),
    /// End of stream: report a read of zero bytes.
    Eof,
    /// Ask the native layer whether data is available, then wait.
    IssueQueryData,
    /// Nothing to do until the next native event arrives.
    Pending,
    /// Surface this error; every later poll surfaces it again.
    Failed(NativeError),
}

pub struct ResponseReader {
    phase: RecvPhase,
    chunk: Vec<u8>,
    read_size: usize,
    error: Option<NativeError>,
    delivered: Ghost<Seq<u8>>,
    consumed: Ghost<Seq<u8>>,
    chunks: Ghost<Seq<Seq<u8>>>,
}

/// The concatenation of a sequence of chunks.
pub open spec fn concat_chunks(cs: Seq<Seq<u8>>) -> Seq<u8>
    decreases cs.len(),
{
    if cs.len() == 0 {
        Seq::empty()
    } else {
        concat_chunks(cs.drop_last()) + cs.last()
    }
}

/// Chunks of at most `cap` bytes each add up to at most `cap` bytes per
/// chunk.
pub proof fn lemma_concat_chunks_len_bound(cs: Seq<Seq<u8>>, cap: int)
    requires
        cap > 0,
        forall|i: int| 0 <= i < cs.len() ==> (#[trigger] cs[i]).len() <= cap,
    ensures
        concat_chunks(cs).len() <= cs.len() * cap,
    decreases cs.len(),
{
    if cs.len() > 0 {
        let front = cs.drop_last();
        assert forall|i: int| 0 <= i < front.len() implies (#[trigger] front[i]).len()
            <= cap by {
            assert(front[i] == cs[i]);
        }
        lemma_concat_chunks_len_bound(front, cap);
        assert(cs.last().len() <= cap);
        assert((cs.len() - 1) * cap + cap == cs.len() * cap) by (nonlinear_arith);
    }
}

impl ResponseReader {
    /// The bytes of the staged chunk the caller has not pulled yet.
    pub closed spec fn pending(&self) -> Seq<u8> {
        self.chunk@.skip(self.read_size as int)
    }

    /// Every byte the native layer has delivered, in order.
    pub closed spec fn delivered(&self) -> Seq<u8> {
        self.delivered@
    }

    /// Every byte handed to the caller, in order.
    pub closed spec fn consumed(&self) -> Seq<u8> {
        self.consumed@
    }

    pub closed spec fn phase(&self) -> RecvPhase {
        self.phase
    }

    pub closed spec fn spec_error(&self) -> Option<NativeError> {
        self.error
    }

    /// The chunks the native layer has delivered, one per completed native
    /// read, in order; their concatenation is `delivered()`.
    pub closed spec fn chunks(&self) -> Seq<Seq<u8>> {
        self.chunks@
    }

    /// The machine's invariant. Outside of failure, the caller's bytes plus
    /// the staged remainder are exactly what the native layer delivered.
    pub closed spec fn wf(&self) -> bool {
        &&& self.read_size <= self.chunk@.len()
        &&& (self.phase != RecvPhase::Failed ==> self.delivered@ =~= self.consumed@
            + self.pending())
        &&& (self.phase == RecvPhase::Buffered <==> self.read_size < self.chunk@.len())
        &&& (self.phase == RecvPhase::Failed <==> self.error is Some)
        &&& self.consumed@.len() + self.pending().len() <= usize::MAX
        &&& self.delivered@ =~= concat_chunks(self.chunks@)
    }

    pub fn new() -> (r: Self)
        ensures
            r.wf(),
            r.phase() == RecvPhase::Init,
            r.delivered() =~= Seq::<u8>::empty(),
            r.consumed() =~= Seq::<u8>::empty(),
            r.chunks() =~= Seq::<Seq<u8>>::empty(),
    {
        ResponseReader {
            phase: RecvPhase::Init,
            chunk: Vec::new(),
            read_size: 0,
            error: None,
            delivered: Ghost(Seq::empty()),
            consumed: Ghost(Seq::empty()),
            chunks: Ghost(Seq::empty()),
        }
    }

    /// One poll of the download. `dest_cap` is the capacity of the caller's
    /// buffer; at most that many staged bytes are handed over, in order.
    pub fn poll_step(&mut self, dest_cap: usize) -> (r: ReadStep)
        requires
            old(self).wf(),
        ensures
            final(self).wf(),
            final(self).delivered() == old(self).delivered(),
            // End of stream is absorbing and never turns into an error.
            old(self).phase() == RecvPhase::FinishedData ==> r is Eof && final(self).phase()
                == RecvPhase::FinishedData && final(self).consumed() == old(self).consumed(),
            // A delivered error is terminal and surfaces on every poll.
            old(self).phase() == RecvPhase::Failed ==> (r matches ReadStep::Failed(e)
                && Some(e) == old(self).spec_error()) && final(self).phase() == RecvPhase::Failed
                && final(self).consumed() == old(self).consumed(),
            // The first poll asks the native layer for data.
            old(self).phase() == RecvPhase::Init ==> r is IssueQueryData && final(self).phase()
                == RecvPhase::AwaitingData && final(self).consumed() == old(self).consumed(),
            // Waiting: nothing changes until an event arrives.
            old(self).phase() == RecvPhase::AwaitingData ==> r is Pending && final(self).phase()
                == RecvPhase::AwaitingData && final(self).consumed() == old(self).consumed(),
            // Staged bytes are handed over in order, never duplicated.
            old(self).phase() == RecvPhase::Buffered ==> (r matches ReadStep::Copied(v)
                && v@ =~= old(self).pending().take(spec_min(
                dest_cap as int,
                old(self).pending().len() as int,
            )) && final(self).consumed() =~= old(self).consumed() + v@ && final(self).pending()
                =~= old(self).pending().skip(v@.len() as int)),
    {
        match self.phase {
            RecvPhase::Init => {
                self.phase = RecvPhase::AwaitingData;
                ReadStep::IssueQueryData
            },
            RecvPhase::AwaitingData => ReadStep::Pending,
            RecvPhase::FinishedData => ReadStep::Eof,
            RecvPhase::Failed => {
                let e = self.error.unwrap();
                ReadStep::Failed(e)
            },
            RecvPhase::Buffered => {
                let avail = self.chunk.len() - self.read_size;
                let n = if dest_cap < avail {
                    dest_cap
                } else {
                    avail
                };
                let mut v: Vec<u8> = Vec::new();
                let mut j: usize = 0;
                while j < n
                    invariant
                        self.read_size + n <= self.chunk@.len() <= usize::MAX,
                        j <= n,
                        v@.len() == j,
                        forall|k: int| 0 <= k < j ==> v@[k] == self.chunk@[self.read_size + k],
                    decreases n - j,
                {
                    v.push(self.chunk[self.read_size + j]);
                    j = j + 1;
                }
                self.read_size = self.read_size + n;
                proof {
                    self.consumed@ = self.consumed@ + v@;
                }
                if self.read_size == self.chunk.len() {
                    self.phase = RecvPhase::AwaitingData;
                }
                ReadStep::Copied(v)
            },
        }
    }

    /// Deposits the chunk a completed native read produced. The empty chunk
    /// is the native layer's end-of-stream mark.
    pub fn deliver_chunk(&mut self, data: Vec<u8>)
        requires
            old(self).wf(),
            old(self).phase() == RecvPhase::AwaitingData || old(self).phase() == RecvPhase::Init,
            old(self).consumed().len() + data@.len() <= usize::MAX,
        ensures
            final(self).wf(),
            final(self).delivered() =~= old(self).delivered() + data@,
            final(self).consumed() == old(self).consumed(),
            final(self).chunks() =~= old(self).chunks().push(data@),
            data@.len() == 0 ==> final(self).phase() == RecvPhase::FinishedData,
            data@.len() > 0 ==> final(self).phase() == RecvPhase::Buffered && final(self).pending()
                =~= data@,
    {
        proof {
            self.delivered@ = self.delivered@ + data@;
            self.chunks@ = self.chunks@.push(data@);
            assert(self.chunks@.drop_last() =~= old(self).chunks@);
            assert(concat_chunks(self.chunks@) =~= concat_chunks(old(self).chunks@) + data@);
        }
        if data.len() == 0 {
            self.phase = RecvPhase::FinishedData;
            self.chunk = data;
            self.read_size = 0;
        } else {
            self.chunk = data;
            self.read_size = 0;
            self.phase = RecvPhase::Buffered;
        }
    }

    /// Records an error the bridge delivered; the download is over.
    pub fn deliver_error(&mut self, e: NativeError)
        requires
            old(self).wf(),
            old(self).phase() != RecvPhase::Failed,
        ensures
            final(self).wf(),
            final(self).phase() == RecvPhase::Failed,
            final(self).spec_error() == Some(e),
            final(self).consumed() == old(self).consumed(),
            final(self).delivered() == old(self).delivered(),
            final(self).chunks() == old(self).chunks(),
    {
        self.error = Some(e);
        if self.read_size < self.chunk.len() {
            // Drop the staged remainder; the stream is over.
            let n = self.chunk.len();
            self.read_size = n;
        }
        self.phase = RecvPhase::Failed;
    }

    /// Once the native layer has reported end of stream, the caller has
    /// received every delivered byte: the stream loses and duplicates
    /// nothing.
    pub proof fn lemma_finished_accounts_for_all_bytes(&self)
        requires
            self.wf(),
            self.phase() == RecvPhase::FinishedData,
        ensures
            self.consumed() =~= self.delivered(),
    {
        assert(self.pending().len() == 0);
    }

    /// A body of N bytes whose native reads each stage at most `cap` bytes
    /// takes at least ceiling(N / cap) delivery cycles: the delivered total
    /// never exceeds the cycle count times the per-cycle capacity.
    pub proof fn lemma_refill_cycles(&self, cap: int)
        requires
            self.wf(),
            cap > 0,
            forall|i: int| 0 <= i < self.chunks().len() ==> (#[trigger] self.chunks()[i]).len()
                <= cap,
        ensures
            self.delivered().len() <= self.chunks().len() * cap,
    {
        lemma_concat_chunks_len_bound(self.chunks@, cap);
    }
}

pub open spec fn spec_min(a: int, b: int) -> int {
    if a < b {
        a
    } else {
        b
    }
}

} // verus!
