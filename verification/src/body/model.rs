//! The body as a mathematical value, and each step of its pipeline as a
//! function on that value.
//!
//! Bytes enter the read buffer through the decode stage, leave it through the
//! encode stage into the output, and leave the output when they are read.

use vstd::prelude::*;
use crate::body::source::InnerReceiver;
use crate::chunked::{
    chunk_frame, chunks_of, dechunk, joined, last_chunk, lemma_chunks_grow, lemma_dechunk_chunked,
    lemma_piece_in_joined, Dechunked,
};
use crate::codec::fed_event;
use crate::coders::{drained, emitted, trailer, CompressView, DecompressView};
use crate::consts::{is_coding, COMPRESS_METHOD_NONE};
use crate::error::ProtError;
use crate::layer::RateLimitLayer;

verus! {

/// What a body holds.
pub struct BodyView {
    /// What is known of the source.
    pub receiver: InnerReceiver,
    /// The permits that the semaphore has to give: none or one.
    pub permits: nat,
    /// Whether the body holds the permit.
    pub permit: bool,
    /// The bytes the body was made with, until they are processed.
    pub origin_buf: Option<Seq<u8>>,
    /// The decoded bytes that are not encoded yet.
    pub read_buf: Option<Seq<u8>>,
    /// The encoded bytes that are not read yet.
    pub out: Seq<u8>,
    /// The coding of the bytes that come in.
    pub origin_method: i8,
    /// The coding asked for the bytes that go out.
    pub now_method: i8,
    /// The writers.
    pub compress: CompressView,
    /// The readers.
    pub decompress: DecompressView,
    /// Whether the output is framed in chunks.
    pub is_chunked: bool,
    /// Whether the source has delivered its last byte.
    pub is_end: bool,
    /// Whether the last byte has gone through the pipeline.
    pub is_process_end: bool,
    /// The high-water mark of the read buffer.
    pub max_read_buf: usize,
    /// The ceiling on what is taken from the source, if there is one.
    pub rate_limit: Option<RateLimitLayer>,
}

/// The outcome of a step: the body afterwards and what the step returns.
pub type Step = (BodyView, Result<usize, ProtError>);

/// `data` as it goes to the output: one chunk, or the bytes themselves.
pub open spec fn framed(is_chunked: bool, data: Seq<u8>) -> Seq<u8> {
    if is_chunked {
        chunk_frame(data)
    } else {
        data
    }
}

/// What a coder put out as it goes to the output; nothing goes out for no
/// bytes, so that no chunk of length zero is written by accident.
pub open spec fn framed_if_any(is_chunked: bool, data: Seq<u8>) -> Seq<u8> {
    if data.len() > 0 {
        framed(is_chunked, data)
    } else {
        Seq::empty()
    }
}

/// The byte that a reader gets behind the last piece of its stream.
pub open spec fn padding() -> Seq<u8> {
    seq![255u8]
}

impl BodyView {
    /// Whether the semaphore is in order: it never has more than the one permit,
    /// and none while the body holds it.
    pub open spec fn wf(self) -> bool {
        self.permits + (if self.permit {
            1nat
        } else {
            0nat
        }) <= 1
    }

    /// The coding to apply on the way out: none where the bytes come in with
    /// the coding that is asked for.
    pub open spec fn now_compress(self) -> i8 {
        if self.origin_method == self.now_method {
            COMPRESS_METHOD_NONE
        } else {
            self.now_method
        }
    }

    /// Whether bytes pass both stages unchanged.
    pub open spec fn is_pass_through(self) -> bool {
        self.origin_method == self.now_method
    }

    /// The read buffer's bytes; none where there is no read buffer.
    pub open spec fn pending(self) -> Seq<u8> {
        match self.read_buf {
            Some(buf) => buf,
            None => Seq::empty(),
        }
    }

    /// The body once a reader has made room: the semaphore has a permit again,
    /// unless the body holds it.
    pub open spec fn notified(self) -> BodyView {
        if !self.permit && self.permits == 0 {
            BodyView { permits: 1, ..self }
        } else {
            self
        }
    }

    /// The body once the high-water mark was looked at: the permit is gone
    /// where the read buffer has reached the mark.
    pub open spec fn limited(self) -> BodyView {
        if self.read_buf is Some && self.pending().len() >= self.max_read_buf {
            BodyView { permit: false, ..self }
        } else {
            self
        }
    }

    /// The body after it asked for the permit, and whether it holds it now.
    pub open spec fn acquired(self) -> (BodyView, bool) {
        if self.permit {
            (self, true)
        } else if self.permits > 0 {
            (BodyView { permits: (self.permits - 1) as nat, permit: true, ..self }, true)
        } else {
            (self, false)
        }
    }

    /// The body after an error: it has ended, and nothing more leaves its
    /// pipeline.
    pub open spec fn failed(self) -> BodyView {
        BodyView { is_end: true, is_process_end: true, ..self }
    }

    /// The log of the reader of the coding that comes in, once it was handed
    /// `data`. With the last piece of a body the reader gets one byte of
    /// padding behind it: a reader asks for more input before it gives what it
    /// holds back, and would find none after the last piece. A stream that is
    /// complete does not read the padding. The padding is not told from a
    /// byte of the stream: a stream that lacks its last byte alone counts as
    /// complete if that byte is the one of the padding.
    pub open spec fn fed(self, data: Seq<u8>) -> Seq<crate::codec::ReadEvent> {
        let log = self.decompress.log(self.origin_method).push(fed_event(data));
        if self.is_end {
            log.push(fed_event(padding()))
        } else {
            log
        }
    }

    /// Whether there is nothing to decode: no bytes are handed over, and none
    /// have come in the coding before, so that its reader is not open. Not
    /// so where the body ends while the bytes it was made with still wait.
    pub open spec fn nothing_coded(self, data: Seq<u8>) -> bool {
        data.len() == 0 && self.decompress.slot(self.origin_method) is None && !(self.is_end
            && self.origin_buf is Some)
    }

    /// The decode stage on `data`.
    ///
    /// Bytes that need no decoding are appended to the read buffer. Bytes in a
    /// known coding go to that coding's reader, and what the reader gives is
    /// appended; with the last piece of the body the reader is read to the end
    /// of its stream. An unknown coding, a reader that fails, or a stream
    /// that is cut off where the body ends, ends the body with an error.
    /// While no byte has come in the coding its reader stays closed, and a
    /// body that ends so is empty.
    pub open spec fn decoded(self, data: Seq<u8>) -> Step {
        let buf = self.pending();
        if self.origin_method == COMPRESS_METHOD_NONE {
            (BodyView { read_buf: Some(buf + data), ..self }, Ok(data.len() as usize))
        } else if self.origin_method == self.now_method {
            (BodyView { read_buf: Some(buf + data), ..self }, Ok(0))
        } else if !is_coding(self.origin_method) {
            (BodyView { read_buf: Some(buf), ..self }.failed(), Err(ProtError::UnknownCompress))
        } else if self.nothing_coded(data) {
            (
                BodyView {
                    read_buf: Some(buf),
                    origin_method: if self.is_end {
                        COMPRESS_METHOD_NONE
                    } else {
                        self.origin_method
                    },
                    ..self
                }.notified(),
                Ok(0),
            )
        } else {
            let m = self.origin_method;
            let d = drained(m, self.fed(data), 0, self.is_end);
            let next = BodyView {
                read_buf: Some(buf + d.bytes),
                decompress: self.decompress.with(m, Some(d.log)),
                ..self
            };
            if d.ok {
                (
                    BodyView {
                        origin_method: if self.is_end {
                            COMPRESS_METHOD_NONE
                        } else {
                            m
                        },
                        ..next
                    }.notified(),
                    Ok(d.bytes.len() as usize),
                )
            } else {
                (next.failed(), Err(ProtError::Compression))
            }
        }
    }

    /// The bytes that the encode stage adds to the output for `data`, and the
    /// writers afterwards; `None` where the writer fails. No `data` stands for
    /// the end of the body: the writer is finished, and a chunked output gets
    /// its last chunk.
    pub open spec fn encode_bytes(self, data: Seq<u8>) -> Option<(Seq<u8>, CompressView)> {
        let m = self.now_compress();
        if !is_coding(m) {
            Some((framed(self.is_chunked, data), self.compress))
        } else if data.len() == 0 {
            match trailer(m, self.compress.fed(m)) {
                Some(t) => Some(
                    (
                        framed_if_any(self.is_chunked, t) + (if self.is_chunked {
                            last_chunk()
                        } else {
                            Seq::empty()
                        }),
                        self.compress.with(m, None),
                    ),
                ),
                None => None,
            }
        } else {
            match emitted(m, self.compress.fed(m), data) {
                Some(e) => Some(
                    (
                        framed_if_any(self.is_chunked, e),
                        self.compress.with(m, Some(self.compress.fed(m).push(data))),
                    ),
                ),
                None => None,
            }
        }
    }

    /// The encode stage on `data`: the bytes of [`Self::encode_bytes`] are
    /// appended to the output and counted. A writer that fails is closed and
    /// ends the body with an error.
    pub open spec fn encoded(self, data: Seq<u8>) -> Step {
        match self.encode_bytes(data) {
            Some((bytes, compress)) => (
                BodyView { out: self.out + bytes, compress, ..self },
                Ok(bytes.len() as usize),
            ),
            None => (
                BodyView { compress: self.compress.with(self.now_compress(), None), ..self }.failed(),
                Err(ProtError::Compression),
            ),
        }
    }

    /// The second half of a pipeline step: what the read buffer holds goes
    /// through the encode stage, a reader is told of the room, and a body that
    /// has ended is finished. After an error the read buffer is gone.
    pub open spec fn flushed(self) -> Step {
        let moved: Step = match self.read_buf {
            Some(buf) => {
                let e: Step = if buf.len() > 0 {
                    self.encoded(buf)
                } else {
                    (self, Ok(0))
                };
                if e.1 is Err {
                    (BodyView { read_buf: None, ..e.0 }, e.1)
                } else {
                    (BodyView { read_buf: Some(Seq::empty()), ..e.0 }.notified(), Ok(0))
                }
            },
            None => (self, Ok(0)),
        };
        if moved.1 is Err {
            moved
        } else {
            let ended: Step = if moved.0.is_end {
                moved.0.encoded(Seq::empty())
            } else {
                (moved.0, Ok(0))
            };
            if ended.1 is Err {
                ended
            } else {
                (BodyView { is_process_end: ended.0.is_end, ..ended.0 }, Ok(0))
            }
        }
    }

    /// The first half of a pipeline step: the bytes the body was made with go
    /// through the decode stage.
    pub open spec fn primed(self) -> Step {
        match self.origin_buf {
            Some(origin) => BodyView { origin_buf: None, ..self }.decoded(origin),
            None => (self, Ok(0)),
        }
    }

    /// One pipeline step without taking anything from the source. A body whose
    /// last byte has gone through is left as it is.
    pub open spec fn processed(self) -> Step {
        if self.is_process_end {
            (self, Ok(0))
        } else {
            let p = self.primed();
            if p.1 is Err {
                p
            } else {
                p.0.flushed()
            }
        }
    }

    /// The body after its output was read out.
    pub open spec fn drained_out(self) -> BodyView {
        BodyView { out: Seq::empty(), ..self }
    }
}

/// What the holder of the source is to do next.
#[derive(Debug, Clone, Copy, PartialEq, Eq, Structural)]
pub enum PullAction {
    /// Nothing: the source has delivered its last byte.
    Done,
    /// Wait until a reader has made room: the semaphore gave no permit.
    Wait,
    /// Wait for the next interval: the budget of this one is spent.
    Throttled,
    /// Poll the source and report what it gave.
    Poll,
}

/// What a poll of the source gave, by its bytes.
pub enum PolledView {
    /// A chunk, and whether it is the last.
    Chunk(bool, Seq<u8>),
    /// The source is closed, or reading it failed.
    Closed,
    /// Nothing yet.
    Pending,
}

impl BodyView {
    /// What is to be done next about the source, and the body after it asked
    /// the semaphore.
    pub open spec fn pull_ready(self) -> (BodyView, PullAction) {
        if self.is_end {
            (self, PullAction::Done)
        } else {
            let a = self.acquired();
            if !a.1 {
                (a.0, PullAction::Wait)
            } else if a.0.rate_limit is Some && a.0.rate_limit->0.left == 0 {
                (a.0, PullAction::Throttled)
            } else {
                (a.0, PullAction::Poll)
            }
        }
    }

    /// The body as a new interval of its ceiling starts: the budget is full
    /// again.
    pub open spec fn refilled(self) -> BodyView {
        BodyView {
            rate_limit: match self.rate_limit {
                Some(rate) => Some(RateLimitLayer { left: rate.nums, ..rate }),
                None => None,
            },
            ..self
        }
    }

    /// The bytes of a chunk as they count against the budget.
    pub open spec fn charged(self, n: nat) -> BodyView {
        match self.rate_limit {
            Some(rate) => BodyView {
                rate_limit: Some(
                    rate.called(
                        if n > u64::MAX {
                            u64::MAX
                        } else {
                            n as u64
                        },
                    ),
                ),
                ..self
            },
            None => self,
        }
    }

    /// The body after it took in a chunk of its source: the chunk sets the
    /// end flag, goes through the decode stage and counts against the budget;
    /// then the high-water mark is looked at.
    pub open spec fn chunk_taken(self, is_end: bool, bytes: Seq<u8>) -> (
        BodyView,
        Result<bool, ProtError>,
    ) {
        let d = BodyView { is_end, ..self }.decoded(bytes);
        match d.1 {
            Err(e) => (d.0, Err(e)),
            Ok(_) => (d.0.charged(bytes.len()).limited(), Ok(true)),
        }
    }

    /// The body after a poll of the source gave `polled`, with what the step
    /// returns: whether anything changed, or the error of the decode stage.
    /// Before a chunk the bytes that the body was made with go through the
    /// decode stage, if they have not yet: they come first. The chunk sets
    /// the end flag, goes through the decode stage and counts against the
    /// budget; then the high-water mark is looked at.
    pub open spec fn received(self, polled: PolledView) -> (BodyView, Result<bool, ProtError>) {
        match polled {
            PolledView::Chunk(is_end, bytes) => {
                let p = self.primed();
                match p.1 {
                    Err(e) => (p.0, Err(e)),
                    Ok(_) => p.0.chunk_taken(is_end, bytes),
                }
            },
            PolledView::Closed => (BodyView { is_end: true, ..self }.limited(), Ok(true)),
            PolledView::Pending => (self, Ok(false)),
        }
    }
}

impl BodyView {
    /// Whether the read buffer is under control of the semaphore: while the semaphore
    /// is open, to the body or to the next one who asks, the read buffer has
    /// not passed the high-water mark.
    pub open spec fn sem_bounded(self) -> bool {
        (self.permit || self.permits > 0) ==> self.pending().len() <= self.max_read_buf
    }
}

/// Every step leaves the semaphore in order.
pub proof fn lemma_steps_keep_sem(v: BodyView, data: Seq<u8>, polled: PolledView)
    requires
        v.wf(),
    ensures
        v.notified().wf(),
        v.limited().wf(),
        v.acquired().0.wf(),
        v.decoded(data).0.wf(),
        v.encoded(data).0.wf(),
        v.primed().0.wf(),
        v.flushed().0.wf(),
        v.processed().0.wf(),
        v.pull_ready().0.wf(),
        v.received(polled).0.wf(),
{
    lemma_stages_keep_sem(v, data);
    lemma_primed_keeps_sem(v);
    lemma_flushed_keeps_sem(v);
    lemma_processed_keeps_sem(v);
    lemma_received_keeps_sem(v, polled);
}

/// Each stage leaves the semaphore in order.
proof fn lemma_stages_keep_sem(v: BodyView, data: Seq<u8>)
    requires
        v.wf(),
    ensures
        v.notified().wf(),
        v.limited().wf(),
        v.acquired().0.wf(),
        v.decoded(data).0.wf(),
        v.encoded(data).0.wf(),
{
}

/// The first half of a pipeline step leaves the semaphore in order.
proof fn lemma_primed_keeps_sem(v: BodyView)
    requires
        v.wf(),
    ensures
        v.primed().0.wf(),
{
    match v.origin_buf {
        Some(bytes) => {
            lemma_stages_keep_sem(BodyView { origin_buf: None, ..v }, bytes);
        },
        None => {},
    }
}

/// The second half of a pipeline step leaves the semaphore in order.
proof fn lemma_flushed_keeps_sem(v: BodyView)
    requires
        v.wf(),
    ensures
        v.flushed().0.wf(),
{
}

/// A pipeline step leaves the semaphore in order.
proof fn lemma_processed_keeps_sem(v: BodyView)
    requires
        v.wf(),
    ensures
        v.processed().0.wf(),
{
    lemma_primed_keeps_sem(v);
    lemma_flushed_keeps_sem(v.primed().0);
}

/// Taking in what a poll of the source gave leaves the semaphore in order.
proof fn lemma_received_keeps_sem(v: BodyView, polled: PolledView)
    requires
        v.wf(),
    ensures
        v.pull_ready().0.wf(),
        v.received(polled).0.wf(),
{
    match polled {
        PolledView::Chunk(is_end, data) => {
            lemma_primed_keeps_sem(v);
            lemma_stages_keep_sem(BodyView { is_end, ..v.primed().0 }, data);
        },
        _ => {},
    }
}

/// A body whose last byte has gone through the pipeline is terminal: a step
/// changes nothing and adds nothing to the output, so once the output is read
/// out, every further read gives no bytes.
pub proof fn lemma_terminal(v: BodyView)
    requires
        v.is_process_end,
    ensures
        v.processed() == (v, Ok::<usize, ProtError>(0)),
        v.drained_out().processed().0.out == Seq::<u8>::empty(),
{
}

/// A pipeline step that succeeds on a body that has ended makes it terminal.
pub proof fn lemma_end_is_processed(v: BodyView)
    requires
        v.is_end,
        v.processed().1 is Ok,
    ensures
        v.processed().0.is_process_end,
{
}

/// Where the bytes come in with the coding that is asked for, whatever it is,
/// both stages leave them as they are: the decode stage appends them to the
/// read buffer, the encode stage appends them to the output, framed as one
/// chunk where the body is chunked.
pub proof fn lemma_pass_through(v: BodyView, data: Seq<u8>)
    requires
        v.is_pass_through(),
    ensures
        v.decoded(data).1 is Ok,
        v.decoded(data).0 == (BodyView { read_buf: Some(v.pending() + data), ..v }),
        v.encoded(data).1 is Ok,
        v.encoded(data).0 == (BodyView { out: v.out + framed(v.is_chunked, data), ..v }),
{
}

/// A body made with the bytes `bytes`, which come in with the coding that is
/// asked for, puts out exactly `bytes` in one pipeline step, and is terminal
/// afterwards; chunked, it puts them out as one chunk, if there are any, and
/// the last chunk.
pub proof fn lemma_pass_through_whole(v: BodyView, bytes: Seq<u8>)
    requires
        v.is_pass_through(),
        v.origin_buf == Some(bytes),
        v.read_buf is None,
        v.is_end,
        !v.is_process_end,
    ensures
        v.processed().1 is Ok,
        v.processed().0.is_process_end,
        !v.is_chunked ==> v.processed().0.out == v.out + bytes,
        v.is_chunked ==> v.processed().0.out == v.out + framed_if_any(true, bytes) + last_chunk(),
{
    let p = v.primed();
    let start = BodyView { origin_buf: None, ..v };
    lemma_pass_through(start, bytes);
    assert(start.pending() + bytes =~= bytes);
    assert(p.0.read_buf == Some(bytes));
    if bytes.len() > 0 {
        lemma_pass_through(p.0, bytes);
        let e = p.0.encoded(bytes).0;
        let moved = BodyView { read_buf: Some(Seq::empty()), ..e }.notified();
        lemma_pass_through(moved, Seq::empty());
        assert(v.out + bytes + Seq::<u8>::empty() =~= v.out + bytes);
    } else {
        let moved = BodyView { read_buf: Some(Seq::empty()), ..p.0 }.notified();
        lemma_pass_through(moved, Seq::empty());
        assert(v.out + Seq::<u8>::empty() =~= v.out + bytes);
        assert(v.out + Seq::<u8>::empty() + last_chunk() =~= v.out + framed_if_any(true, bytes)
            + last_chunk());
    }
}

/// A body made with the plain bytes `bytes`, for which the coding `method` is
/// asked, puts out in one pipeline step what the writer of `method` puts out
/// for `bytes`, then what it puts out at the end of its stream; it fails where
/// the writer does.
pub proof fn lemma_compress_whole(v: BodyView, bytes: Seq<u8>, method: i8)
    requires
        is_coding(method),
        v.origin_method == COMPRESS_METHOD_NONE,
        v.now_method == method,
        v.origin_buf == Some(bytes),
        v.read_buf is None,
        v.compress.slot(method) is None,
        v.is_end,
        !v.is_process_end,
        !v.is_chunked,
        bytes.len() > 0,
    ensures
        match emitted(method, Seq::empty(), bytes) {
            Some(first) => match trailer(method, Seq::<Seq<u8>>::empty().push(bytes)) {
                Some(last) => v.processed().1 is Ok && v.processed().0.out == v.out + first + last,
                None => v.processed().1 == Err::<usize, ProtError>(ProtError::Compression),
            },
            None => v.processed().1 == Err::<usize, ProtError>(ProtError::Compression),
        },
{
    let p = v.primed();
    assert(BodyView { origin_buf: None, ..v }.pending() + bytes =~= bytes);
    assert(p.0.read_buf == Some(bytes));
    assert(p.0.compress.fed(method) =~= Seq::<Seq<u8>>::empty());
    match emitted(method, Seq::empty(), bytes) {
        Some(first) => {
            let e = p.0.encoded(bytes).0;
            let moved = BodyView { read_buf: Some(Seq::empty()), ..e }.notified();
            assert(moved.compress.fed(method) == Seq::<Seq<u8>>::empty().push(bytes));
            match trailer(method, Seq::<Seq<u8>>::empty().push(bytes)) {
                Some(last) => {
                    assert(v.out + framed_if_any(false, first) + (framed_if_any(false, last)
                        + Seq::<u8>::empty()) =~= v.out + first + last);
                },
                None => {},
            }
        },
        None => {},
    }
}

/// A body made with the bytes `bytes` in the coding `method`, which are to go
/// out plain, puts out in one pipeline step what the reader of `method` gives
/// for `bytes` and the padding behind them, read to the end of its stream; it
/// fails where the reader does, or where the stream is cut off.
pub proof fn lemma_decompress_whole(v: BodyView, bytes: Seq<u8>, method: i8)
    requires
        is_coding(method),
        v.origin_method == method,
        v.now_method == COMPRESS_METHOD_NONE,
        v.origin_buf == Some(bytes),
        v.read_buf is None,
        v.decompress.slot(method) is None,
        v.is_end,
        !v.is_process_end,
        !v.is_chunked,
        bytes.len() > 0,
    ensures
        ({
            let d = drained(
                method,
                Seq::<crate::codec::ReadEvent>::empty().push(fed_event(bytes)).push(
                    fed_event(padding()),
                ),
                0,
                true,
            );
            if d.ok {
                v.processed().1 is Ok && v.processed().0.out == v.out + d.bytes
            } else {
                v.processed().1 == Err::<usize, ProtError>(ProtError::Compression)
            }
        }),
{
    let d = drained(
        method,
        Seq::<crate::codec::ReadEvent>::empty().push(fed_event(bytes)).push(fed_event(padding())),
        0,
        true,
    );
    let p = v.primed();
    let start = BodyView { origin_buf: None, ..v };
    assert(start.decompress.log(method) =~= Seq::<crate::codec::ReadEvent>::empty());
    assert(start.pending() + d.bytes =~= d.bytes);
    if d.ok {
        assert(p.0.read_buf == Some(d.bytes));
        assert(p.0.origin_method == COMPRESS_METHOD_NONE);
        assert(p.0.now_compress() == COMPRESS_METHOD_NONE);
        if d.bytes.len() > 0 {
            let e = p.0.encoded(d.bytes).0;
            assert(e.out == v.out + d.bytes);
            let moved = BodyView { read_buf: Some(Seq::empty()), ..e }.notified();
            assert(moved.encoded(Seq::empty()).0.out =~= v.out + d.bytes);
        } else {
            let moved = BodyView { read_buf: Some(Seq::empty()), ..p.0 }.notified();
            assert(moved.encoded(Seq::empty()).0.out =~= v.out + d.bytes);
        }
    }
}

/// The read buffer never holds more than the high-water mark and one chunk.
///
/// This is the step of the induction. The semaphore is in order and bounds the read
/// buffer; the body was told to poll its source, and takes in what the poll
/// gave, a chunk that adds at most `chunk_size` bytes to the read buffer.
/// Then the read buffer holds at most `max_read_buf + chunk_size` bytes, and
/// the semaphore still bounds it.
pub proof fn lemma_read_buf_bound(v: BodyView, polled: PolledView, chunk_size: nat)
    requires
        v.wf(),
        v.sem_bounded(),
        v.pull_ready().1 == PullAction::Poll,
        v.pull_ready().0.received(polled).1 is Ok,
        v.pull_ready().0.received(polled).0.pending().len() <= v.pending().len() + chunk_size,
    ensures
        v.pull_ready().0.received(polled).0.pending().len() <= v.max_read_buf + chunk_size,
        v.pull_ready().0.received(polled).0.max_read_buf == v.max_read_buf,
        v.pull_ready().0.received(polled).0.sem_bounded(),
        v.pull_ready().0.received(polled).0.wf(),
{
}

/// A chunk that needs no decoding adds its own length to the read buffer,
/// behind the bytes that the body was made with, if those have not gone
/// through the decode stage yet.
pub proof fn lemma_plain_chunk_size(v: BodyView, is_end: bool, bytes: Seq<u8>)
    requires
        v.origin_method == COMPRESS_METHOD_NONE || v.is_pass_through(),
    ensures
        v.received(PolledView::Chunk(is_end, bytes)).1 is Ok,
        v.received(PolledView::Chunk(is_end, bytes)).0.pending().len() == v.pending().len()
            + bytes.len() + match v.origin_buf {
            Some(origin) => origin.len(),
            None => 0,
        },
{
}

/// A pipeline step that succeeds leaves the read buffer empty or absent, so
/// the semaphore bounds it afterwards.
pub proof fn lemma_process_empties(v: BodyView)
    requires
        v.wf(),
        !v.is_process_end,
        v.processed().1 is Ok,
    ensures
        v.processed().0.pending().len() == 0,
        v.processed().0.sem_bounded(),
{
    let p = v.primed();
    assert(p.1 is Ok);
    match p.0.read_buf {
        Some(buf) => {
            if buf.len() > 0 {
                let e = p.0.encoded(buf);
                assert(e.1 is Ok);
            }
        },
        None => {},
    }
}

/// Backpressure: a body that has taken in a chunk with which its read buffer
/// reached the high-water mark is told to wait, however often it asks, and
/// takes nothing more from its source, until a reader makes room.
pub proof fn lemma_backpressure(v: BodyView, polled: PolledView)
    requires
        v.wf(),
        v.permit,
        v.received(polled).1 == Ok::<bool, ProtError>(true),
        !v.received(polled).0.is_end,
        v.received(polled).0.pending().len() >= v.max_read_buf,
    ensures
        v.received(polled).0.pull_ready() == (v.received(polled).0, PullAction::Wait),
        v.received(polled).0.notified().pull_ready().1 != PullAction::Wait,
{
    let w = v.received(polled).0;
    match polled {
        PolledView::Chunk(is_end, bytes) => {
            let d = BodyView { is_end, ..v.primed().0 }.decoded(bytes);
            assert(d.0.permits == 0);
            assert(d.0.read_buf is Some);
        },
        PolledView::Closed => {},
        PolledView::Pending => {},
    }
}

/// What happens to a body from outside.
pub enum BodyEvent {
    /// The source gives a chunk, with the flag that tells the last.
    Feed(bool, Seq<u8>),
    /// A reader runs a pipeline step and takes what it put out.
    Read,
}

impl BodyView {
    /// The bytes that the body holds on their way to a reader, in the order
    /// in which they leave: the output, the read buffer, and the bytes that
    /// the body was made with while they wait for the decode stage.
    pub open spec fn in_flight(self) -> Seq<u8> {
        self.out + self.pending() + match self.origin_buf {
            Some(origin) => origin,
            None => Seq::empty(),
        }
    }

    /// The body after `event` happened to it, and the bytes that a reader
    /// got: those that a pipeline step put out, if the event is a read that
    /// does not fail.
    #[verifier::opaque]
    pub open spec fn stepped(self, event: BodyEvent) -> (BodyView, Seq<u8>) {
        match event {
            BodyEvent::Feed(is_end, bytes) => (
                self.received(PolledView::Chunk(is_end, bytes)).0,
                Seq::empty(),
            ),
            BodyEvent::Read => {
                let p = self.processed();
                if p.1 is Ok {
                    (p.0.drained_out(), p.0.out)
                } else {
                    (p.0, Seq::empty())
                }
            },
        }
    }

    /// The body after `events` happened to it one after the other, and the
    /// bytes that the reads gave, joined.
    pub open spec fn played(self, events: Seq<BodyEvent>) -> (BodyView, Seq<u8>)
        decreases events.len(),
    {
        if events.len() == 0 {
            (self, Seq::empty())
        } else {
            let before = self.played(events.drop_last());
            let step = before.0.stepped(events.last());
            (step.0, before.1 + step.1)
        }
    }
}

/// The bytes of the chunks among `events`, joined.
pub open spec fn fed_bytes(events: Seq<BodyEvent>) -> Seq<u8>
    decreases events.len(),
{
    if events.len() == 0 {
        Seq::empty()
    } else {
        fed_bytes(events.drop_last()) + match events.last() {
            BodyEvent::Feed(_, bytes) => bytes,
            BodyEvent::Read => Seq::empty(),
        }
    }
}

/// A body that is not chunked, and whose bytes come in with the coding that
/// is asked for, hands its bytes on as they are, however the chunks of its
/// source and the reads follow each other: what the reads gave, joined, and
/// what is still on its way are together the bytes that the body held at
/// first and the bytes of the chunks, in order. A read of a body that was
/// not terminal leaves nothing on its way, so the reads have then given every
/// byte.
pub proof fn lemma_pass_through_stream(v: BodyView, events: Seq<BodyEvent>)
    requires
        v.is_pass_through(),
        !v.is_chunked,
    ensures
        ({
            let r = v.played(events);
            &&& r.0.is_pass_through()
            &&& !r.0.is_chunked
            &&& r.1 + r.0.in_flight() == v.in_flight() + fed_bytes(events)
            &&& events.len() > 0 && events.last() is Read && !v.played(
                events.drop_last(),
            ).0.is_process_end ==> r.1 == v.in_flight() + fed_bytes(events)
        }),
    decreases events.len(),
{
    if events.len() == 0 {
        assert(Seq::<u8>::empty() + v.in_flight() =~= v.in_flight() + Seq::<u8>::empty());
    } else {
        let front = events.drop_last();
        lemma_pass_through_stream(v, front);
        let before = v.played(front);
        let step = before.0.stepped(events.last());
        lemma_step_keeps_order(before.0, events.last());
        let more = match events.last() {
            BodyEvent::Feed(_, bytes) => bytes,
            BodyEvent::Read => Seq::<u8>::empty(),
        };
        let rest = step.0.in_flight();
        assert(step.1 + rest == before.0.in_flight() + more);
        assert((before.1 + step.1) + rest =~= before.1 + (step.1 + rest));
        assert(before.1 + (before.0.in_flight() + more) =~= (before.1 + before.0.in_flight())
            + more);
        assert((v.in_flight() + fed_bytes(front)) + more =~= v.in_flight() + (fed_bytes(front)
            + more));
        if events.last() is Read && !before.0.is_process_end {
            assert((before.1 + step.1) + Seq::<u8>::empty() =~= before.1 + step.1);
        }
    }
}

/// One event leaves the bytes of a pass-through body in order: a chunk comes
/// behind all that the body holds, and a read takes all that it holds, unless
/// the body is terminal.
proof fn lemma_step_keeps_order(v: BodyView, event: BodyEvent)
    requires
        v.is_pass_through(),
        !v.is_chunked,
    ensures
        ({
            let r = v.stepped(event);
            &&& r.0.is_pass_through()
            &&& !r.0.is_chunked
            &&& r.1 + r.0.in_flight() == v.in_flight() + match event {
                BodyEvent::Feed(_, bytes) => bytes,
                BodyEvent::Read => Seq::<u8>::empty(),
            }
            &&& event is Read && !v.is_process_end ==> r.0.in_flight() == Seq::<u8>::empty()
        }),
{
    reveal(BodyView::stepped);
    match event {
        BodyEvent::Feed(is_end, bytes) => {
            lemma_feed_keeps_order(v, is_end, bytes);
            let r = v.received(PolledView::Chunk(is_end, bytes)).0;
            assert(Seq::<u8>::empty() + r.in_flight() =~= r.in_flight());
        },
        BodyEvent::Read => {
            lemma_read_keeps_order(v);
            assert(v.in_flight() + Seq::<u8>::empty() =~= v.in_flight());
            let p = v.processed();
            assert(Seq::<u8>::empty() + p.0.in_flight() =~= p.0.in_flight());
        },
    }
}

/// A chunk that a pass-through body takes in waits behind all that waited:
/// the read buffer then holds what it held, the bytes that the body was made
/// with, and the chunk. The output and the framing stay as they were.
proof fn lemma_feed_waits(v: BodyView, is_end: bool, bytes: Seq<u8>)
    requires
        v.is_pass_through(),
    ensures
        ({
            let r = v.received(PolledView::Chunk(is_end, bytes));
            &&& r.1 is Ok
            &&& r.0.is_pass_through()
            &&& r.0.is_chunked == v.is_chunked
            &&& r.0.out == v.out
            &&& r.0.origin_buf is None
            &&& r.0.pending() == v.waiting() + bytes
            &&& r.0.is_process_end == v.is_process_end
        }),
{
    let start = BodyView { origin_buf: None, ..v };
    let p = v.primed();
    match v.origin_buf {
        Some(origin) => {
            lemma_pass_through(start, origin);
            assert(p.0 == (BodyView { read_buf: Some(start.pending() + origin), ..start }));
        },
        None => {
            assert(p.0 == v);
            assert(v.pending() + Seq::<u8>::empty() =~= v.pending());
        },
    }
    assert(p.1 is Ok);
    assert(p.0.pending() =~= v.waiting());
    let q = BodyView { is_end, ..p.0 };
    lemma_pass_through(q, bytes);
    let d = q.decoded(bytes);
    assert(d.0 == (BodyView { read_buf: Some(q.pending() + bytes), ..q }));
    assert(v.received(PolledView::Chunk(is_end, bytes)) == p.0.chunk_taken(is_end, bytes));
    assert(p.0.chunk_taken(is_end, bytes).0 == d.0.charged(bytes.len()).limited());
}

/// A chunk comes behind all that a pass-through body holds.
proof fn lemma_feed_keeps_order(v: BodyView, is_end: bool, bytes: Seq<u8>)
    requires
        v.is_pass_through(),
        !v.is_chunked,
    ensures
        ({
            let r = v.received(PolledView::Chunk(is_end, bytes)).0;
            &&& r.is_pass_through()
            &&& !r.is_chunked
            &&& r.in_flight() == v.in_flight() + bytes
        }),
{
    lemma_feed_waits(v, is_end, bytes);
    let r = v.received(PolledView::Chunk(is_end, bytes)).0;
    assert(r.in_flight() =~= v.in_flight() + bytes);
}

/// A pipeline step of a pass-through body that is not chunked moves to the
/// output all that the body holds, in order, unless the body is terminal.
proof fn lemma_read_keeps_order(v: BodyView)
    requires
        v.is_pass_through(),
        !v.is_chunked,
    ensures
        ({
            let p = v.processed();
            &&& p.1 is Ok
            &&& p.0.is_pass_through()
            &&& !p.0.is_chunked
            &&& p.0.out + p.0.drained_out().in_flight() == v.in_flight()
            &&& !v.is_process_end ==> p.0.drained_out().in_flight() == Seq::<u8>::empty()
        }),
{
    let p = v.processed();
    if v.is_process_end {
        assert(p.0.out + p.0.drained_out().in_flight() =~= v.in_flight());
    } else {
        let a = v.primed().0;
        assert(a.in_flight() =~= v.in_flight());
        assert(a.pending() =~= v.pending() + match v.origin_buf {
            Some(origin) => origin,
            None => Seq::<u8>::empty(),
        });
        assert(p.0.out =~= v.out + a.pending());
        assert(p.0.drained_out().in_flight() =~= Seq::<u8>::empty());
        assert(p.0.out + p.0.drained_out().in_flight() =~= v.in_flight());
    }
}

impl BodyView {
    /// The body after it was asked what to do about its source and, if it was
    /// told to poll, took in the chunk that the poll gave.
    #[verifier::opaque]
    pub open spec fn pulled(self, is_end: bool, bytes: Seq<u8>) -> BodyView {
        let r = self.pull_ready();
        if r.1 == PullAction::Poll {
            r.0.received(PolledView::Chunk(is_end, bytes)).0
        } else {
            r.0
        }
    }

    /// The body after it was read: a pipeline step, and the output taken if
    /// the step did not fail.
    #[verifier::opaque]
    pub open spec fn read_out(self) -> BodyView {
        let p = self.processed();
        if p.1 is Ok {
            p.0.drained_out()
        } else {
            p.0
        }
    }

    /// The body after `events` happened to it one after the other, where a
    /// chunk is taken from the source only when the body says so.
    pub open spec fn driven(self, events: Seq<BodyEvent>) -> BodyView
        decreases events.len(),
    {
        if events.len() == 0 {
            self
        } else {
            let before = self.driven(events.drop_last());
            match events.last() {
                BodyEvent::Feed(is_end, bytes) => before.pulled(is_end, bytes),
                BodyEvent::Read => before.read_out(),
            }
        }
    }

    /// Whether the read buffer is in bounds for chunks of at most `chunk`
    /// bytes: the semaphore is in order and bounds the buffer, which holds no
    /// more than the high-water mark `mark` and one chunk; the bytes come in
    /// without a coding to undo, and none wait that the body was made with.
    pub open spec fn in_bounds(self, mark: usize, chunk: nat) -> bool {
        &&& self.wf()
        &&& self.sem_bounded()
        &&& self.max_read_buf == mark
        &&& self.pending().len() <= mark + chunk
        &&& self.origin_buf is None
        &&& (self.origin_method == COMPRESS_METHOD_NONE || self.is_pass_through())
    }
}

/// Whether no chunk among `events` holds more than `chunk` bytes.
pub open spec fn chunks_within(events: Seq<BodyEvent>, chunk: nat) -> bool {
    forall|i: int|
        0 <= i < events.len() ==> match #[trigger] events[i] {
            BodyEvent::Feed(_, bytes) => bytes.len() <= chunk,
            BodyEvent::Read => true,
        }
}

/// The read buffer never holds more than the high-water mark and one chunk:
/// a body whose bytes need no decoding, and which takes chunks from its
/// source only when it says so, stays in bounds whatever chunks of at most
/// `chunk` bytes the source gives and whenever it is read.
pub proof fn lemma_read_buf_never_over(v: BodyView, events: Seq<BodyEvent>, chunk: nat)
    requires
        v.in_bounds(v.max_read_buf, chunk),
        chunks_within(events, chunk),
    ensures
        v.driven(events).in_bounds(v.max_read_buf, chunk),
    decreases events.len(),
{
    if events.len() > 0 {
        let front = events.drop_last();
        assert(chunks_within(front, chunk)) by {
            assert forall|i: int| 0 <= i < front.len() implies match #[trigger] front[i] {
                BodyEvent::Feed(_, bytes) => bytes.len() <= chunk,
                BodyEvent::Read => true,
            } by {
                assert(front[i] == events[i]);
            }
        }
        lemma_read_buf_never_over(v, front, chunk);
        let before = v.driven(front);
        let last = events[events.len() - 1];
        match events.last() {
            BodyEvent::Feed(is_end, bytes) => {
                assert(last == events.last());
                lemma_pull_in_bounds(before, is_end, bytes, chunk);
            },
            BodyEvent::Read => {
                lemma_read_in_bounds(before, chunk);
            },
        }
    }
}

/// Taking a chunk from the source when the body says so leaves the read
/// buffer in bounds.
proof fn lemma_pull_in_bounds(v: BodyView, is_end: bool, bytes: Seq<u8>, chunk: nat)
    requires
        v.in_bounds(v.max_read_buf, chunk),
        bytes.len() <= chunk,
    ensures
        v.pulled(is_end, bytes).in_bounds(v.max_read_buf, chunk),
{
    reveal(BodyView::pulled);
    let r = v.pull_ready();
    lemma_steps_keep_sem(v, bytes, PolledView::Chunk(is_end, bytes));
    if r.1 == PullAction::Poll {
        let polled = PolledView::Chunk(is_end, bytes);
        lemma_plain_chunk_size(r.0, is_end, bytes);
        lemma_read_buf_bound(v, polled, chunk);
    }
}

/// Reading the body leaves the read buffer in bounds.
proof fn lemma_read_in_bounds(v: BodyView, chunk: nat)
    requires
        v.in_bounds(v.max_read_buf, chunk),
    ensures
        v.read_out().in_bounds(v.max_read_buf, chunk),
{
    reveal(BodyView::read_out);
    let p = v.processed();
    lemma_steps_keep_sem(v, Seq::empty(), PolledView::Pending);
    if !v.is_process_end && p.1 is Ok {
        lemma_process_empties(v);
    }
}

impl BodyView {
    /// The bytes that wait in the body for a pipeline step: the read buffer,
    /// then the bytes that the body was made with.
    pub open spec fn waiting(self) -> Seq<u8> {
        self.pending() + match self.origin_buf {
            Some(origin) => origin,
            None => Seq::empty(),
        }
    }

    /// Whether a read takes bytes from the body or finds its end: not once
    /// the last byte has gone through the pipeline.
    pub open spec fn gives(self) -> bool {
        !self.is_process_end
    }

    /// The pieces that the reads among `events` took from the body, each
    /// what waited at one read, and whether a read found the body at its
    /// end.
    pub open spec fn pieces_read(self, events: Seq<BodyEvent>) -> (Seq<Seq<u8>>, bool)
        decreases events.len(),
    {
        if events.len() == 0 {
            (Seq::empty(), false)
        } else {
            let before = self.pieces_read(events.drop_last());
            let at = self.played(events.drop_last()).0;
            if events.last() is Read && at.gives() {
                (
                    if at.waiting().len() > 0 {
                        before.0.push(at.waiting())
                    } else {
                        before.0
                    },
                    before.1 || at.is_end,
                )
            } else {
                before
            }
        }
    }
}

/// A chunked body whose bytes come in with the coding that is asked for puts
/// out a well-formed chunked body, however the chunks of its source and the
/// reads follow each other. What the reads gave, joined, is one chunk for
/// each read that found bytes waiting, in order, closed by the last chunk
/// once a read has found the body at its end, and by nothing after it. The
/// bytes in the chunks and the bytes that still wait are together the bytes
/// that waited at first and those of the chunks of the source. So the output
/// of a body that was read to its end decodes to those bytes, to the end and
/// to the last byte.
pub proof fn lemma_chunked_stream(v: BodyView, events: Seq<BodyEvent>)
    requires
        v.is_pass_through(),
        v.is_chunked,
        v.out.len() == 0,
        v.gives(),
    ensures
        ({
            let r = v.played(events);
            let p = v.pieces_read(events);
            &&& r.1 == chunks_of(p.0) + if p.1 {
                last_chunk()
            } else {
                Seq::empty()
            }
            &&& joined(p.0) + r.0.waiting() == v.waiting() + fed_bytes(events)
            &&& forall|i: int| 0 <= i < p.0.len() ==> (#[trigger] p.0[i]).len() > 0
            &&& p.1 == !r.0.gives()
            &&& p.1 && joined(p.0).len() <= usize::MAX ==> dechunk(r.1) == (Dechunked {
                body: joined(p.0),
                rest: Seq::empty(),
                ended: true,
                valid: true,
            })
        }),
{
    lemma_chunked_played(v, events);
    let r = v.played(events);
    let p = v.pieces_read(events);
    if p.1 && joined(p.0).len() <= usize::MAX {
        assert forall|i: int| 0 <= i < p.0.len() implies 0 < (#[trigger] p.0[i]).len()
            <= usize::MAX by {
            lemma_piece_in_joined(p.0, i);
        }
        lemma_dechunk_chunked(p.0);
        lemma_chunks_grow(p.0, Seq::empty());
    }
}

/// The induction behind [`lemma_chunked_stream`].
proof fn lemma_chunked_played(v: BodyView, events: Seq<BodyEvent>)
    requires
        v.is_pass_through(),
        v.is_chunked,
        v.out.len() == 0,
        v.gives(),
    ensures
        ({
            let r = v.played(events);
            let p = v.pieces_read(events);
            &&& r.0.is_pass_through()
            &&& r.0.is_chunked
            &&& r.0.out.len() == 0
            &&& r.1 == chunks_of(p.0) + if p.1 {
                last_chunk()
            } else {
                Seq::empty()
            }
            &&& joined(p.0) + r.0.waiting() == v.waiting() + fed_bytes(events)
            &&& forall|i: int| 0 <= i < p.0.len() ==> (#[trigger] p.0[i]).len() > 0
            &&& p.1 == !r.0.gives()
        }),
    decreases events.len(),
{
    let none = Seq::<u8>::empty();
    if events.len() == 0 {
        assert(chunks_of(Seq::<Seq<u8>>::empty()) + none =~= none);
        assert(joined(Seq::<Seq<u8>>::empty()) + v.waiting() =~= v.waiting() + none);
    } else {
        let front = events.drop_last();
        lemma_chunked_played(v, front);
        let before = v.played(front);
        let pb = v.pieces_read(front);
        let at = before.0;
        let step = at.stepped(events.last());
        let r = v.played(events);
        let p = v.pieces_read(events);
        lemma_chunked_step(at, events.last());
        let tail = if pb.1 {
            last_chunk()
        } else {
            none
        };
        match events.last() {
            BodyEvent::Feed(_, bytes) => {
                assert(before.1 + none =~= before.1);
                assert(joined(pb.0) + (at.waiting() + bytes) =~= (joined(pb.0) + at.waiting())
                    + bytes);
                assert((v.waiting() + fed_bytes(front)) + bytes =~= v.waiting() + (fed_bytes(
                    front,
                ) + bytes));
            },
            BodyEvent::Read => {
                assert(fed_bytes(front) + none =~= fed_bytes(front));
                if at.gives() {
                    let w = at.waiting();
                    assert(tail == none);
                    assert(chunks_of(pb.0) + none =~= chunks_of(pb.0));
                    let end = if at.is_end {
                        last_chunk()
                    } else {
                        none
                    };
                    if w.len() > 0 {
                        lemma_chunks_grow(pb.0, w);
                        assert(before.1 + (chunk_frame(w) + end) =~= (chunks_of(pb.0)
                            + chunk_frame(w)) + end);
                        assert((joined(pb.0) + w) + none =~= joined(pb.0) + w);
                        assert forall|i: int| 0 <= i < p.0.len() implies (#[trigger] p.0[i]).len()
                            > 0 by {
                            if i < pb.0.len() {
                                assert(p.0[i] == pb.0[i]);
                            }
                        }
                    } else {
                        assert(before.1 + (none + end) =~= chunks_of(pb.0) + end);
                        assert(joined(pb.0) + none =~= joined(pb.0) + w);
                    }
                } else {
                    assert(before.1 + none =~= before.1);
                }
            },
        }
    }
}

/// What one event does to a chunked body whose bytes come in with the coding
/// that is asked for, and whose output was read out: a chunk waits behind
/// what waited; a read frames what waited as one chunk, adds the last chunk
/// if the body has ended, and leaves nothing waiting; a read of a body whose
/// last byte has gone through gives nothing.
proof fn lemma_chunked_step(v: BodyView, event: BodyEvent)
    requires
        v.is_pass_through(),
        v.is_chunked,
        v.out.len() == 0,
    ensures
        ({
            let r = v.stepped(event);
            &&& r.0.is_pass_through()
            &&& r.0.is_chunked
            &&& r.0.out.len() == 0
            &&& match event {
                BodyEvent::Feed(_, bytes) => r.1 == Seq::<u8>::empty() && r.0.waiting()
                    == v.waiting() + bytes && r.0.gives() == v.gives(),
                BodyEvent::Read => if v.gives() {
                    r.1 == (if v.waiting().len() > 0 {
                        chunk_frame(v.waiting())
                    } else {
                        Seq::<u8>::empty()
                    }) + (if v.is_end {
                        last_chunk()
                    } else {
                        Seq::<u8>::empty()
                    }) && r.0.waiting() == Seq::<u8>::empty() && r.0.gives() == !v.is_end
                } else {
                    r.1 == Seq::<u8>::empty() && r.0.waiting() == v.waiting() && !r.0.gives()
                },
            }
        }),
{
    reveal(BodyView::stepped);
    let none = Seq::<u8>::empty();
    assert(v.out =~= none);
    match event {
        BodyEvent::Feed(is_end, bytes) => {
            lemma_feed_waits(v, is_end, bytes);
            let r = v.received(PolledView::Chunk(is_end, bytes)).0;
            assert(r.waiting() =~= v.waiting() + bytes);
        },
        BodyEvent::Read => {
            if v.gives() {
                let a = v.primed().0;
                let p = v.processed();
                assert(a.pending() =~= v.waiting());
                assert(a.waiting() =~= v.waiting());
                let w = v.waiting();
                if w.len() > 0 {
                    let e = a.encoded(w).0;
                    assert(e.out =~= chunk_frame(w));
                    let moved = BodyView { read_buf: Some(none), ..e }.notified();
                    if v.is_end {
                        assert(moved.encoded(none).0.out =~= chunk_frame(w) + last_chunk());
                    } else {
                        assert(p.0.out =~= chunk_frame(w) + none);
                    }
                } else {
                    if v.is_end {
                        match a.read_buf {
                            Some(_) => {
                                let moved = BodyView { read_buf: Some(none), ..a }.notified();
                                assert(moved.encoded(none).0.out =~= none + last_chunk());
                            },
                            None => {
                                assert(a.encoded(none).0.out =~= none + last_chunk());
                            },
                        }
                    } else {
                        assert(p.0.out =~= none + none);
                    }
                }
                assert(p.0.drained_out().waiting() =~= none);
            }
        },
    }
}

} // verus!
