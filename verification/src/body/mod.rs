//! The streaming body of a message.
//!
//! A body is made with bytes in memory, and may have a channel or a file
//! behind it that delivers more. Each pipeline step moves what has arrived
//! through the decode stage into the read buffer, and what the read buffer
//! holds through the encode stage into the output, where a reader takes it.
//! [`model::BodyView`] says what each step does.

pub mod model;
pub mod source;

use vstd::prelude::*;
use vstd::utf8::encode_utf8;
use algorithm::buf::{Binary, BinaryMut};
use crate::binary::{
    advance, advance_all, bin_bytes, bin_chunk, chunk, freeze, mut_bytes, new_mut, put_slice,
    remaining, thaw,
};
use crate::body::model::{framed, BodyView, PolledView, PullAction};
use crate::body::source::InnerReceiver;
use crate::chunked::encode_chunk_data;
use crate::coders::{read_all_data, read_to_end, InnerCompress, InnerDecompress};
use crate::consts::{
    COMPRESS_METHOD_BROTLI, COMPRESS_METHOD_DEFLATE, COMPRESS_METHOD_GZIP, COMPRESS_METHOD_NONE,
    DEFAULT_MAX_READ_BUF,
};
use crate::error::ProtError;
use crate::layer::RateLimitLayer;

verus! {

/// What a poll of the source gave.
pub enum Polled {
    /// A chunk, and whether it is the last.
    Chunk(bool, Binary),
    /// The source is closed, or reading it failed.
    Closed,
    /// Nothing yet.
    Pending,
}

impl View for Polled {
    type V = PolledView;

    open spec fn view(&self) -> PolledView {
        match *self {
            Polled::Chunk(is_end, bin) => PolledView::Chunk(is_end, bin_bytes(bin)),
            Polled::Closed => PolledView::Closed,
            Polled::Pending => PolledView::Pending,
        }
    }
}

/// A streaming message body.
pub struct Body {
    receiver: InnerReceiver,
    permits: usize,
    permit: bool,
    origin_buf: Option<BinaryMut>,
    read_buf: Option<BinaryMut>,
    cache_body_data: BinaryMut,
    origin_compress_method: i8,
    now_compress_method: i8,
    compress: InnerCompress,
    decompress: InnerDecompress,
    is_chunked: bool,
    is_end: bool,
    is_process_end: bool,
    max_read_buf: usize,
    rate_limit: Option<RateLimitLayer>,
}

impl View for Body {
    type V = BodyView;

    closed spec fn view(&self) -> BodyView {
        BodyView {
            receiver: self.receiver,
            permits: self.permits as nat,
            permit: self.permit,
            origin_buf: match self.origin_buf {
                Some(b) => Some(mut_bytes(b)),
                None => None,
            },
            read_buf: match self.read_buf {
                Some(b) => Some(mut_bytes(b)),
                None => None,
            },
            out: mut_bytes(self.cache_body_data),
            origin_method: self.origin_compress_method,
            now_method: self.now_compress_method,
            compress: self.compress@,
            decompress: self.decompress@,
            is_chunked: self.is_chunked,
            is_end: self.is_end,
            is_process_end: self.is_process_end,
            max_read_buf: self.max_read_buf,
            rate_limit: self.rate_limit,
        }
    }
}

/// A body that holds `origin` and otherwise nothing: no source, nothing
/// buffered, no coding, not chunked, ended but not processed, the semaphore with
/// its one permit, the default high-water mark.
pub open spec fn fresh(origin: Option<Seq<u8>>) -> BodyView {
    BodyView {
        receiver: InnerReceiver::new_spec(),
        permits: 1,
        permit: false,
        origin_buf: origin,
        read_buf: None,
        out: Seq::empty(),
        origin_method: COMPRESS_METHOD_NONE,
        now_method: COMPRESS_METHOD_NONE,
        compress: crate::coders::CompressView::none(),
        decompress: crate::coders::DecompressView::none(),
        is_chunked: false,
        is_end: true,
        is_process_end: false,
        max_read_buf: DEFAULT_MAX_READ_BUF,
        rate_limit: None,
    }
}

impl Body {
    fn with_origin(origin_buf: Option<BinaryMut>) -> (b: Body)
        ensures
            b@ == fresh(
                match origin_buf {
                    Some(o) => Some(mut_bytes(o)),
                    None => None,
                },
            ),
    {
        Body {
            receiver: InnerReceiver::new(),
            permits: 1,
            permit: false,
            origin_buf,
            read_buf: None,
            cache_body_data: new_mut(),
            origin_compress_method: COMPRESS_METHOD_NONE,
            now_compress_method: COMPRESS_METHOD_NONE,
            compress: InnerCompress::new(),
            decompress: InnerDecompress::new(),
            is_chunked: false,
            is_end: true,
            is_process_end: false,
            max_read_buf: DEFAULT_MAX_READ_BUF,
            rate_limit: None,
        }
    }

    /// A body without bytes.
    pub fn empty() -> (b: Body)
        ensures
            b@ == fresh(None),
    {
        Body::with_origin(None)
    }

    /// A body that holds the bytes of `binary`.
    pub fn only(binary: Binary) -> (b: Body)
        ensures
            b@ == fresh(Some(bin_bytes(binary))),
    {
        Body::with_origin(Some(thaw(binary)))
    }

    /// A body that holds the bytes of `binary`.
    pub fn new_binary(binary: BinaryMut) -> (b: Body)
        ensures
            b@ == fresh(Some(mut_bytes(binary))),
    {
        Body::with_origin(Some(binary))
    }

    /// A body that holds the bytes of `binary` and has a channel behind it,
    /// which has delivered its last chunk if `is_end` says so.
    pub fn new(binary: BinaryMut, is_end: bool) -> (b: Body)
        ensures
            b@ == (BodyView {
                receiver: InnerReceiver::new_receiver_spec(),
                is_end,
                ..fresh(Some(mut_bytes(binary)))
            }),
    {
        let mut b = Body::with_origin(Some(binary));
        b.receiver = InnerReceiver::new_receiver();
        b.is_end = is_end;
        b
    }

    /// A body with a file behind it, of which `data_size` bytes are to be
    /// delivered.
    pub fn new_file(data_size: u64) -> (b: Body)
        ensures
            b@ == (BodyView {
                receiver: InnerReceiver::new_file_spec(data_size),
                is_end: false,
                ..fresh(None)
            }),
    {
        let mut b = Body::with_origin(None);
        b.receiver = InnerReceiver::new_file(data_size);
        b.is_end = false;
        b
    }

    /// A body that holds the bytes of `text`.
    pub fn new_text(text: String) -> (b: Body)
        ensures
            b@ == fresh(Some(encode_utf8(text@))),
    {
        let mut origin = new_mut();
        put_slice(&mut origin, text.as_str().as_bytes());
        proof {
            assert(mut_bytes(origin) =~= encode_utf8(text@));
        }
        Body::with_origin(Some(origin))
    }

    /// Sets the ceiling on what is taken from the source.
    pub fn set_rate_limit(&mut self, rate: RateLimitLayer)
        ensures
            final(self)@ == (BodyView { rate_limit: Some(rate), ..old(self)@ }),
    {
        self.rate_limit = Some(rate);
    }

    /// The ceiling on what is taken from the source, if there is one.
    pub fn rate_limit(&self) -> (r: Option<RateLimitLayer>)
        ensures
            r == self@.rate_limit,
    {
        self.rate_limit
    }

    /// Starts a new interval of the ceiling, if there is one: its budget is
    /// full again.
    pub fn refill_rate_limit(&mut self)
        ensures
            final(self)@ == old(self)@.refilled(),
    {
        match self.rate_limit {
            Some(mut rate) => {
                rate.refill();
                self.rate_limit = Some(rate);
            },
            None => {},
        }
    }

    /// Sets the high-water mark of the read buffer.
    pub fn set_max_read_buf(&mut self, max_read_buf: usize)
        ensures
            final(self)@ == (BodyView { max_read_buf, ..old(self)@ }),
    {
        self.max_read_buf = max_read_buf;
    }

    /// Limits a file behind the body to the bytes from `start_pos` up to
    /// `end_pos`. A range that ends before it starts is refused and changes
    /// nothing.
    pub fn set_start_end(&mut self, start_pos: u64, end_pos: u64) -> (r: Result<(), ProtError>)
        ensures
            end_pos >= start_pos ==> r is Ok && final(self)@ == (BodyView {
                receiver: InnerReceiver {
                    start_pos: Some(start_pos),
                    end_pos: Some(end_pos),
                    data_size: (end_pos - start_pos) as u64,
                    ..old(self)@.receiver
                },
                ..old(self)@
            }),
            end_pos < start_pos ==> r is Err && final(self)@ == old(self)@,
    {
        self.receiver.set_start_end(start_pos, end_pos)
    }

    /// What is known of the source.
    pub fn receiver(&self) -> (r: InnerReceiver)
        ensures
            r == self@.receiver,
    {
        self.receiver
    }

    /// Accounts for a read of the file behind the body that filled `size`
    /// bytes of the buffer: see [`InnerReceiver::file_read`].
    pub fn file_read(&mut self, size: usize) -> (r: (bool, usize))
        ensures
            r.0 == (size < old(self)@.receiver.cache_len || old(self)@.receiver.data_size <= size),
            r.1 == crate::body::source::min(old(self)@.receiver.data_size as int, size as int),
            final(self)@ == (BodyView {
                receiver: InnerReceiver {
                    data_size: (old(self)@.receiver.data_size - r.1) as u64,
                    ..old(self)@.receiver
                },
                ..old(self)@
            }),
    {
        self.receiver.file_read(size)
    }

    /// Takes the read buffer out of the body, as the bytes it holds, and tells
    /// a reader of the room.
    pub fn binary(&mut self) -> (r: Binary)
        ensures
            bin_bytes(r) == old(self)@.pending(),
            final(self)@ == if old(self)@.read_buf is Some {
                (BodyView { read_buf: None, ..old(self)@ }).notified()
            } else {
                old(self)@
            },
    {
        let mut buffer = new_mut();
        match self.read_buf.take() {
            Some(bin) => {
                put_slice(&mut buffer, chunk(&bin));
                self.notify_some_read();
            },
            None => {},
        }
        proof {
            assert(mut_bytes(buffer) =~= old(self)@.pending());
        }
        freeze(buffer)
    }

    /// The coding of the bytes that come in.
    pub fn get_origin_compress(&self) -> (m: i8)
        ensures
            m == self@.origin_method,
    {
        self.origin_compress_method
    }

    /// The coding to apply on the way out: none where the bytes come in with
    /// the coding that is asked for.
    pub fn get_now_compress(&self) -> (m: i8)
        ensures
            m == self@.now_compress(),
    {
        if self.origin_compress_method == self.now_compress_method {
            return 0;
        }
        self.now_compress_method
    }

    /// Gives up the permit where the read buffer has reached the high-water
    /// mark.
    pub fn check_over_limit(&mut self)
        ensures
            final(self)@ == old(self)@.limited(),
    {
        let over = match &self.read_buf {
            Some(buf) => remaining(buf) >= self.max_read_buf,
            None => false,
        };
        if over {
            self.permit = false;
        }
    }

    /// Tells the semaphore that a reader has made room: it has a permit again,
    /// unless the body holds it.
    pub fn notify_some_read(&mut self)
        ensures
            final(self)@ == old(self)@.notified(),
    {
        if self.permit {
            return ;
        }
        if self.permits == 0 {
            self.permits = 1;
        }
    }

    /// The bytes come in as gzip and go out plain.
    pub fn set_compress_gzip(&mut self)
        ensures
            final(self)@ == (BodyView {
                origin_method: COMPRESS_METHOD_GZIP,
                now_method: COMPRESS_METHOD_NONE,
                ..old(self)@
            }),
    {
        self.origin_compress_method = COMPRESS_METHOD_GZIP;
        self.now_compress_method = COMPRESS_METHOD_NONE;
    }

    /// The bytes come in as deflate and go out plain.
    pub fn set_compress_deflate(&mut self)
        ensures
            final(self)@ == (BodyView {
                origin_method: COMPRESS_METHOD_DEFLATE,
                now_method: COMPRESS_METHOD_NONE,
                ..old(self)@
            }),
    {
        self.origin_compress_method = COMPRESS_METHOD_DEFLATE;
        self.now_compress_method = COMPRESS_METHOD_NONE;
    }

    /// The bytes come in as brotli and go out plain.
    pub fn set_compress_brotli(&mut self)
        ensures
            final(self)@ == (BodyView {
                origin_method: COMPRESS_METHOD_BROTLI,
                now_method: COMPRESS_METHOD_NONE,
                ..old(self)@
            }),
    {
        self.origin_compress_method = COMPRESS_METHOD_BROTLI;
        self.now_compress_method = COMPRESS_METHOD_NONE;
    }

    /// The bytes come in as gzip and go out plain.
    pub fn set_compress_origin_gzip(&mut self)
        ensures
            final(self)@ == (BodyView {
                origin_method: COMPRESS_METHOD_GZIP,
                now_method: COMPRESS_METHOD_NONE,
                ..old(self)@
            }),
    {
        self.set_compress_gzip();
    }

    /// The bytes come in as deflate and go out plain.
    pub fn set_compress_origin_deflate(&mut self)
        ensures
            final(self)@ == (BodyView {
                origin_method: COMPRESS_METHOD_DEFLATE,
                now_method: COMPRESS_METHOD_NONE,
                ..old(self)@
            }),
    {
        self.set_compress_deflate();
    }

    /// The bytes come in as brotli and go out plain.
    pub fn set_compress_origin_brotli(&mut self)
        ensures
            final(self)@ == (BodyView {
                origin_method: COMPRESS_METHOD_BROTLI,
                now_method: COMPRESS_METHOD_NONE,
                ..old(self)@
            }),
    {
        self.set_compress_brotli();
    }

    /// Sets the coding of the bytes that come in, and returns it.
    pub fn set_origin_compress_method(&mut self, method: i8) -> (m: i8)
        ensures
            final(self)@ == (BodyView { origin_method: method, ..old(self)@ }),
            m == method,
    {
        self.origin_compress_method = method;
        self.origin_compress_method
    }

    /// Sets the coding asked for the bytes that go out, and returns the coding
    /// that is then applied.
    pub fn add_compress_method(&mut self, method: i8) -> (m: i8)
        ensures
            final(self)@ == (BodyView { now_method: method, ..old(self)@ }),
            m == final(self)@.now_compress(),
    {
        self.now_compress_method = method;
        self.get_now_compress()
    }

    /// Whether the output is framed in chunks.
    pub fn is_chunked(&self) -> (r: bool)
        ensures
            r == self@.is_chunked,
    {
        self.is_chunked
    }

    /// Sets whether the output is framed in chunks.
    pub fn set_chunked(&mut self, chunked: bool)
        ensures
            final(self)@ == (BodyView { is_chunked: chunked, ..old(self)@ }),
    {
        self.is_chunked = chunked;
    }

    /// Whether the source has delivered its last byte.
    pub fn is_end(&self) -> (r: bool)
        ensures
            r == self@.is_end,
    {
        self.is_end
    }

    /// Sets whether the source has delivered its last byte.
    pub fn set_end(&mut self, end: bool)
        ensures
            final(self)@ == (BodyView { is_end: end, ..old(self)@ }),
    {
        self.is_end = end
    }

    /// Whether the last byte has gone through the pipeline.
    pub fn is_process_end(&self) -> (r: bool)
        ensures
            r == self@.is_process_end,
    {
        self.is_process_end
    }

    /// The number of decoded bytes that are not encoded yet.
    pub fn origin_len(&self) -> (n: usize)
        ensures
            n == self@.pending().len(),
    {
        match &self.read_buf {
            Some(bin) => remaining(bin),
            None => 0,
        }
    }

    /// A copy of the decoded bytes that are not encoded yet.
    pub fn copy_now(&self) -> (r: Binary)
        ensures
            bin_bytes(r) == self@.pending(),
    {
        let mut buffer = new_mut();
        match &self.read_buf {
            Some(bin) => {
                put_slice(&mut buffer, chunk(bin));
            },
            None => {},
        }
        proof {
            assert(mut_bytes(buffer) =~= self@.pending());
        }
        freeze(buffer)
    }

    /// The number of encoded bytes that are not read yet.
    pub fn body_len(&self) -> (n: usize)
        ensures
            n == self@.out.len(),
    {
        remaining(&self.cache_body_data)
    }

    /// Appends `data` to `buffer`, as one chunk where `is_chunked` says so,
    /// and returns the number of bytes appended.
    pub fn inner_encode_write_data(buffer: &mut BinaryMut, data: &[u8], is_chunked: bool) -> (n:
        usize)
        ensures
            mut_bytes(*final(buffer)) == mut_bytes(*old(buffer)) + framed(is_chunked, data@),
            n == framed(is_chunked, data@).len(),
    {
        if is_chunked {
            encode_chunk_data(buffer, data)
        } else {
            put_slice(buffer, data)
        }
    }

    /// The encode stage: `data` goes to the output, through the writer of the
    /// coding that is applied, and framed in a chunk where the body is
    /// chunked. No `data` stands for the end of the body. Returns the number of
    /// bytes that reached the output.
    pub fn encode_write_data(&mut self, data: &[u8]) -> (r: Result<usize, ProtError>)
        ensures
            final(self)@ == old(self)@.encoded(data@).0,
            r == old(self)@.encoded(data@).1,
    {
        let before = remaining(&self.cache_body_data);
        let m = self.get_now_compress();
        if m == COMPRESS_METHOD_GZIP || m == COMPRESS_METHOD_DEFLATE || m
            == COMPRESS_METHOD_BROTLI {
            if data.len() == 0 {
                // the end of the data: the writer is asked for all that it holds back
                match self.compress.finish(m) {
                    Err(e) => {
                        self.is_end = true;
                        self.is_process_end = true;
                        return Err(e);
                    },
                    Ok(value) => {
                        if value.len() > 0 {
                            Self::inner_encode_write_data(
                                &mut self.cache_body_data,
                                value.as_slice(),
                                self.is_chunked,
                            );
                        }
                        if self.is_chunked {
                            encode_chunk_data(&mut self.cache_body_data, data);
                        }
                        proof {
                            assert(data@ =~= Seq::<u8>::empty());
                            assert(mut_bytes(self.cache_body_data) =~= old(self)@.out + old(
                                self,
                            )@.encode_bytes(data@).unwrap().0);
                        }
                    },
                }
            } else {
                match self.compress.write(m, data) {
                    Err(e) => {
                        self.is_end = true;
                        self.is_process_end = true;
                        return Err(e);
                    },
                    Ok(out) => {
                        // after each write, what the writer has put out is moved on
                        if out.len() > 0 {
                            Self::inner_encode_write_data(
                                &mut self.cache_body_data,
                                out.as_slice(),
                                self.is_chunked,
                            );
                        }
                        proof {
                            assert(mut_bytes(self.cache_body_data) =~= old(self)@.out + old(
                                self,
                            )@.encode_bytes(data@).unwrap().0);
                        }
                    },
                }
            }
        } else {
            Self::inner_encode_write_data(&mut self.cache_body_data, data, self.is_chunked);
        }
        let after = remaining(&self.cache_body_data);
        Ok(after - before)
    }

    /// The decode stage: `data` goes to the read buffer, through the reader of
    /// its coding where it has one that is not also asked for on the way out.
    /// Returns the number of bytes that were decoded into the buffer; bytes
    /// that pass in their coding are not counted.
    pub fn decode_read_data(&mut self, data: &[u8]) -> (r: Result<usize, ProtError>)
        ensures
            final(self)@ == old(self)@.decoded(data@).0,
            r == old(self)@.decoded(data@).1,
    {
        let mut buf = match self.read_buf.take() {
            Some(b) => b,
            None => new_mut(),
        };
        proof {
            assert(mut_bytes(buf) =~= old(self)@.pending());
        }
        // a coding on the way in: the bytes may have to be decoded
        if self.origin_compress_method != COMPRESS_METHOD_NONE {
            // the same coding is asked for on the way out: nothing to do
            if self.origin_compress_method == self.now_compress_method {
                put_slice(&mut buf, data);
                self.read_buf = Some(buf);
                return Ok(0);
            }
            let m = self.origin_compress_method;
            if !(m == COMPRESS_METHOD_GZIP || m == COMPRESS_METHOD_DEFLATE || m
                == COMPRESS_METHOD_BROTLI) {
                self.read_buf = Some(buf);
                self.is_end = true;
                self.is_process_end = true;
                return Err(ProtError::UnknownCompress);
            }
            if data.len() == 0 && !self.decompress.is_open(m) && !(self.is_end
                && self.origin_buf.is_some()) {
                // no byte has come in this coding: there is nothing to decode
                self.read_buf = Some(buf);
                if self.is_end {
                    self.origin_compress_method = COMPRESS_METHOD_NONE;
                }
                self.notify_some_read();
                return Ok(0);
            }
            self.decompress.feed(m, data);
            let res = if self.is_end {
                // the last piece: the reader is not to ask in vain for more
                let padding: [u8; 1] = [255];
                proof {
                    assert(padding@ =~= crate::body::model::padding());
                }
                self.decompress.feed(m, &padding);
                read_to_end(&mut buf, &mut self.decompress, m)
            } else {
                read_all_data(&mut buf, &mut self.decompress, m)
            };
            self.read_buf = Some(buf);
            proof {
                let d = crate::coders::drained(m, old(self)@.fed(data@), 0, old(self)@.is_end);
                assert(self@.decompress =~= old(self)@.decompress.with(m, Some(d.log)));
            }
            match res {
                Err(e) => {
                    self.is_end = true;
                    self.is_process_end = true;
                    Err(e)
                },
                Ok(size) => {
                    if self.is_end {
                        self.origin_compress_method = COMPRESS_METHOD_NONE;
                    }
                    self.notify_some_read();
                    Ok(size)
                },
            }
        } else {
            let n = put_slice(&mut buf, data);
            self.read_buf = Some(buf);
            Ok(n)
        }
    }

    /// Puts `buf` through the decode stage and returns the number of bytes
    /// decoded, or zero where the stage fails.
    pub fn cache_buffer(&mut self, buf: &[u8]) -> (n: usize)
        ensures
            final(self)@ == old(self)@.decoded(buf@).0,
            n == match old(self)@.decoded(buf@).1 {
                Ok(n) => n,
                Err(_) => 0usize,
            },
    {
        match self.decode_read_data(buf) {
            Ok(n) => n,
            Err(_) => 0,
        }
    }

    /// The first half of a pipeline step: the bytes the body was made with go
    /// through the decode stage.
    pub fn process_origin(&mut self) -> (r: Result<usize, ProtError>)
        ensures
            final(self)@ == old(self)@.primed().0,
            r == old(self)@.primed().1,
    {
        match self.origin_buf.take() {
            Some(origin) => self.decode_read_data(chunk(&origin)),
            None => Ok(0),
        }
    }

    /// One pipeline step without taking anything from the source: the bytes
    /// the body was made with, and what the read buffer holds, go through both
    /// stages to the output; a body that has ended is finished. Nothing
    /// happens once the last byte has gone through.
    pub fn process_data(&mut self) -> (r: Result<usize, ProtError>)
        ensures
            final(self)@ == old(self)@.processed().0,
            r == old(self)@.processed().1,
    {
        if self.is_process_end {
            return Ok(0);
        }
        match self.process_origin() {
            Err(e) => {
                return Err(e);
            },
            Ok(_) => {},
        }
        let ghost primed = self@;
        match self.read_buf.take() {
            Some(mut bin) => {
                if remaining(&bin) > 0 {
                    let ghost taken = self@;
                    match self.encode_write_data(chunk(&bin)) {
                        Err(e) => {
                            proof {
                                lemma_encode_ignores_read_buf(taken, primed, mut_bytes(bin));
                            }
                            return Err(e);
                        },
                        Ok(_) => {
                            proof {
                                lemma_encode_ignores_read_buf(taken, primed, mut_bytes(bin));
                            }
                        },
                    }
                }
                advance_all(&mut bin);
                self.read_buf = Some(bin);
                self.notify_some_read();
            },
            None => {},
        }
        if self.is_end {
            let empty: [u8; 0] = [];
            proof {
                assert(empty@ =~= Seq::<u8>::empty());
            }
            match self.encode_write_data(&empty) {
                Err(e) => {
                    return Err(e);
                },
                Ok(_) => {},
            }
        }
        self.is_process_end = self.is_end;
        Ok(0)
    }

    /// Runs a pipeline step and moves the whole output behind the bytes of
    /// `read_data`. Returns the number of bytes moved; after an error the
    /// output stays where it is.
    pub fn read_data(&mut self, read_data: &mut BinaryMut) -> (r: Result<usize, ProtError>)
        ensures
            r == match old(self)@.processed().1 {
                Ok(_) => Ok::<usize, ProtError>(old(self)@.processed().0.out.len() as usize),
                Err(e) => Err::<usize, ProtError>(e),
            },
            r is Ok ==> final(self)@ == old(self)@.processed().0.drained_out() && mut_bytes(
                *final(read_data),
            ) == mut_bytes(*old(read_data)) + old(self)@.processed().0.out,
            r is Err ==> final(self)@ == old(self)@.processed().0 && mut_bytes(*final(read_data))
                == mut_bytes(*old(read_data)),
    {
        match self.process_data() {
            Err(e) => {
                return Err(e);
            },
            Ok(_) => {},
        }
        let mut size: usize = 0;
        if remaining(&self.cache_body_data) > 0 {
            size = put_slice(read_data, chunk(&self.cache_body_data));
            advance_all(&mut self.cache_body_data);
        }
        proof {
            assert(mut_bytes(*read_data) =~= mut_bytes(*old(read_data)) + old(
                self,
            )@.processed().0.out);
            assert(self@.out =~= Seq::<u8>::empty());
        }
        Ok(size)
    }

    /// Runs a pipeline step, whose error is dropped, and takes the whole
    /// output.
    pub fn read_now(&mut self) -> (r: Binary)
        ensures
            bin_bytes(r) == old(self)@.processed().0.out,
            final(self)@ == old(self)@.processed().0.drained_out(),
    {
        let mut buffer = new_mut();
        let _ = self.process_data();
        if remaining(&self.cache_body_data) > 0 {
            put_slice(&mut buffer, chunk(&self.cache_body_data));
            advance_all(&mut self.cache_body_data);
        }
        proof {
            assert(mut_bytes(buffer) =~= old(self)@.processed().0.out);
            assert(self@.out =~= Seq::<u8>::empty());
        }
        freeze(buffer)
    }

    /// Runs a pipeline step and moves the whole output behind the bytes of
    /// `buffer`: what a connection does to send the body. Whoever holds the
    /// source takes from it beforehand.
    pub fn poll_encode_write(&mut self, buffer: &mut BinaryMut) -> (r: Result<usize, ProtError>)
        ensures
            r == match old(self)@.processed().1 {
                Ok(_) => Ok::<usize, ProtError>(old(self)@.processed().0.out.len() as usize),
                Err(e) => Err::<usize, ProtError>(e),
            },
            r is Ok ==> final(self)@ == old(self)@.processed().0.drained_out() && mut_bytes(
                *final(buffer),
            ) == mut_bytes(*old(buffer)) + old(self)@.processed().0.out,
            r is Err ==> final(self)@ == old(self)@.processed().0 && mut_bytes(*final(buffer))
                == mut_bytes(*old(buffer)),
    {
        self.read_data(buffer)
    }

    /// Runs a pipeline step and takes at most `limit` bytes from the front of
    /// the output: what a reader with room for `limit` bytes gets.
    pub fn poll_read(&mut self, limit: usize) -> (r: Result<Vec<u8>, ProtError>)
        ensures
            ({
                let p = old(self)@.processed();
                let len = crate::body::source::min(p.0.out.len() as int, limit as int);
                match p.1 {
                    Ok(_) => r is Ok && r->Ok_0@ == p.0.out.take(len) && final(self)@ == (BodyView {
                        out: p.0.out.skip(len),
                        ..p.0
                    }),
                    Err(e) => r == Err::<Vec<u8>, ProtError>(e) && final(self)@ == p.0,
                }
            }),
    {
        match self.process_data() {
            Err(e) => {
                return Err(e);
            },
            Ok(_) => {},
        }
        let have = remaining(&self.cache_body_data);
        let len = if have < limit {
            have
        } else {
            limit
        };
        let out = vstd::slice::slice_to_vec(slice_take(chunk(&self.cache_body_data), len));
        advance(&mut self.cache_body_data, len);
        Ok(out)
    }

    /// Asks the semaphore for the permit unless the body holds it, and says
    /// whether the body holds it now.
    pub fn inner_poll_sem_ready(&mut self) -> (ready: bool)
        ensures
            final(self)@ == old(self)@.acquired().0,
            ready == old(self)@.acquired().1,
    {
        if self.permit {
            return true;
        }
        if self.permits > 0 {
            self.permits = self.permits - 1;
            self.permit = true;
            true
        } else {
            false
        }
    }

    /// Says what is to be done next about the source. The source is polled
    /// only while it has more to deliver, the body holds the permit and the
    /// budget of the interval is not spent.
    pub fn inner_poll_ready(&mut self) -> (action: PullAction)
        ensures
            final(self)@ == old(self)@.pull_ready().0,
            action == old(self)@.pull_ready().1,
    {
        if self.is_end {
            return PullAction::Done;
        }
        if !self.inner_poll_sem_ready() {
            return PullAction::Wait;
        }
        match &self.rate_limit {
            Some(rate) => {
                if !rate.poll_ready() {
                    return PullAction::Throttled;
                }
            },
            None => {},
        }
        PullAction::Poll
    }

    /// Takes in a chunk of the source: see [`BodyView::chunk_taken`].
    fn take_chunk(&mut self, is_end: bool, data: &[u8]) -> (r: Result<bool, ProtError>)
        ensures
            final(self)@ == old(self)@.chunk_taken(is_end, data@).0,
            r == old(self)@.chunk_taken(is_end, data@).1,
    {
        self.is_end = is_end;
        match self.decode_read_data(data) {
            Err(e) => {
                return Err(e);
            },
            Ok(_) => {},
        }
        match self.rate_limit {
            Some(mut rate) => {
                rate.poll_call(len_as_u64(data.len()));
                self.rate_limit = Some(rate);
            },
            None => {},
        }
        self.check_over_limit();
        Ok(true)
    }

    /// Takes in what a poll of the source gave. Before a chunk the bytes that
    /// the body was made with go through the decode stage, if they have not
    /// yet. The chunk sets the end flag, goes through the decode stage and
    /// counts against the budget; a closed source ends the body. Then the
    /// high-water mark is looked at. Returns whether anything changed.
    pub fn inner_poll_read(&mut self, polled: Polled) -> (r: Result<bool, ProtError>)
        ensures
            final(self)@ == old(self)@.received(polled@).0,
            r == old(self)@.received(polled@).1,
    {
        match polled {
            Polled::Chunk(is_end, bin) => {
                match self.process_origin() {
                    Err(e) => Err(e),
                    Ok(_) => self.take_chunk(is_end, bin_chunk(&bin)),
                }
            },
            Polled::Closed => {
                self.is_end = true;
                self.check_over_limit();
                Ok(true)
            },
            Polled::Pending => Ok(false),
        }
    }

    /// Starts the wait for the whole body: runs a pipeline step, whose error
    /// is dropped, and says whether the source is to be received from, chunk
    /// by chunk, with [`Self::wait_next`].
    pub fn wait_all(&mut self) -> (receive: bool)
        ensures
            final(self)@ == old(self)@.processed().0,
            receive == (!final(self)@.is_end && final(self)@.receiver.kind
                != crate::body::source::SourceKind::Memory),
    {
        let _ = self.process_data();
        !self.is_end && !self.receiver.is_none()
    }

    /// Takes in one chunk while waiting for the whole body. Returns the number
    /// of bytes decoded, and whether the source is to be received from again.
    pub fn wait_next(&mut self, is_end: bool, chunk: &Binary) -> (r: (usize, bool))
        ensures
            final(self)@ == (BodyView { is_end, ..old(self)@ }).decoded(bin_bytes(*chunk)).0,
            r.0 == match (BodyView { is_end, ..old(self)@ }).decoded(bin_bytes(*chunk)).1 {
                Ok(n) => n,
                Err(_) => 0usize,
            },
            r.1 == !final(self)@.is_end,
    {
        self.is_end = is_end;
        let size = self.cache_buffer(bin_chunk(chunk));
        (size, !self.is_end)
    }

    /// Takes note, while waiting for or reading the whole body, that the
    /// source is closed: the body has ended.
    pub fn wait_closed(&mut self)
        ensures
            final(self)@ == (BodyView { is_end: true, ..old(self)@ }),
    {
        self.is_end = true;
    }

    /// Starts the reading of the whole body: as [`Self::wait_all`]; the chunks
    /// then go to [`Self::read_next`].
    pub fn read_all_start(&mut self) -> (receive: bool)
        ensures
            final(self)@ == old(self)@.processed().0,
            receive == (!final(self)@.is_end && final(self)@.receiver.kind
                != crate::body::source::SourceKind::Memory),
    {
        self.wait_all()
    }

    /// Takes in one chunk while reading the whole body: the end flag is set,
    /// then the chunk goes through the decode stage. Returns whether the
    /// source is to be received from again.
    pub fn read_next(&mut self, is_end: bool, chunk: &Binary) -> (more: bool)
        ensures
            final(self)@ == (BodyView { is_end, ..old(self)@ }).decoded(bin_bytes(*chunk)).0,
            more == !final(self)@.is_end,
    {
        self.is_end = is_end;
        self.cache_buffer(bin_chunk(chunk));
        !self.is_end
    }

    /// Ends the reading of the whole body: runs a pipeline step and moves the
    /// whole output behind the bytes of `buffer`. Returns the number of bytes
    /// moved, or `None` where the step fails.
    pub fn read_all(&mut self, buffer: &mut BinaryMut) -> (r: Option<usize>)
        ensures
            r == match old(self)@.processed().1 {
                Ok(_) => Some(old(self)@.processed().0.out.len() as usize),
                Err(_) => None::<usize>,
            },
            r is Some ==> final(self)@ == old(self)@.processed().0.drained_out() && mut_bytes(
                *final(buffer),
            ) == mut_bytes(*old(buffer)) + old(self)@.processed().0.out,
            r is None ==> final(self)@ == old(self)@.processed().0 && mut_bytes(*final(buffer))
                == mut_bytes(*old(buffer)),
    {
        match self.read_data(buffer) {
            Ok(s) => Some(s),
            Err(_) => None,
        }
    }

    /// Takes the read buffer out of the body and appends its bytes to
    /// `buffer`: the body written as it is, without the encode stage.
    pub fn serialize(&mut self, buffer: &mut BinaryMut) -> (n: usize)
        ensures
            n == old(self)@.pending().len(),
            mut_bytes(*final(buffer)) == mut_bytes(*old(buffer)) + old(self)@.pending(),
            final(self)@ == if old(self)@.read_buf is Some {
                (BodyView { read_buf: None, ..old(self)@ }).notified()
            } else {
                old(self)@
            },
    {
        let mut size: usize = 0;
        match self.read_buf.take() {
            Some(bin) => {
                size = put_slice(buffer, chunk(&bin));
                self.notify_some_read();
            },
            None => {},
        }
        proof {
            assert(mut_bytes(*buffer) =~= mut_bytes(*old(buffer)) + old(self)@.pending());
        }
        size
    }
}

/// The first `n` elements of a slice.
fn slice_take(s: &[u8], n: usize) -> (r: &[u8])
    requires
        n <= s@.len(),
    ensures
        r@ == s@.take(n as int),
{
    vstd::slice::slice_subrange(s, 0, n)
}

/// A length as a `u64`, which holds every length but on a machine whose
/// addresses are wider than 64 bits.
fn len_as_u64(n: usize) -> (r: u64)
    ensures
        r == if n > u64::MAX {
            u64::MAX
        } else {
            n as u64
        },
{
    if n as u128 > u64::MAX as u128 {
        u64::MAX
    } else {
        n as u64
    }
}

/// The encode stage neither reads nor writes the read buffer.
proof fn lemma_encode_ignores_read_buf(a: BodyView, b: BodyView, data: Seq<u8>)
    requires
        a == (BodyView { read_buf: a.read_buf, ..b }),
    ensures
        a.encoded(data).1 == b.encoded(data).1,
        a.encoded(data).0 == (BodyView { read_buf: a.read_buf, ..b.encoded(data).0 }),
{
}

/// A body that is made with no bytes is in bounds, whatever the size of the
/// chunks of its source: see [`BodyView::in_bounds`].
pub proof fn lemma_fresh_in_bounds(chunk: nat)
    ensures
        fresh(None).in_bounds(fresh(None).max_read_buf, chunk),
{
}

} // verus!
