//! The coders that a body holds: for each content coding one writer and one
//! reader, opened when first used.

use vstd::prelude::*;
use algorithm::buf::BinaryMut;
use flate2::read::{DeflateDecoder, GzDecoder};
use crate::binary::{mut_bytes, put_slice};
use crate::codec::{
    brotli_emitted, brotli_fed, brotli_finish, brotli_open, brotli_trailer, brotli_write,
    deflate_emitted, deflate_fed, deflate_finish, deflate_open, deflate_trailer, deflate_write,
    fed_event, gunzip_feed, gunzip_log, gunzip_open, gunzip_read, gunzip_take, gzip_emitted,
    gzip_fed, gzip_finish, gzip_open, gzip_trailer, gzip_write, inflate_feed, inflate_log,
    inflate_open, inflate_read, inflate_take, read_event, unbrotli_feed, unbrotli_log,
    unbrotli_open, unbrotli_read, unbrotli_take, BrotliReader, BrotliWriter, DeflateWriter,
    GzipWriter, ReadEvent, ReadOutcome, Taken,
};
use crate::consts::{
    is_coding, COMPRESS_METHOD_BROTLI, COMPRESS_METHOD_DEFLATE, COMPRESS_METHOD_GZIP,
    READ_CHUNK_SIZE,
};
use crate::error::ProtError;

verus! {

/// What the writers of a body have been fed: for each coding the pieces
/// written so far, or `None` while its writer is not open.
pub struct CompressView {
    pub gz: Option<Seq<Seq<u8>>>,
    pub de: Option<Seq<Seq<u8>>>,
    pub br: Option<Seq<Seq<u8>>>,
}

impl CompressView {
    /// No writer is open.
    pub open spec fn none() -> CompressView {
        CompressView { gz: None, de: None, br: None }
    }

    /// The writer of `method`.
    pub open spec fn slot(self, method: i8) -> Option<Seq<Seq<u8>>> {
        if method == COMPRESS_METHOD_GZIP {
            self.gz
        } else if method == COMPRESS_METHOD_DEFLATE {
            self.de
        } else {
            self.br
        }
    }

    /// The pieces fed to the writer of `method`; none where it is not open.
    pub open spec fn fed(self, method: i8) -> Seq<Seq<u8>> {
        match self.slot(method) {
            Some(fed) => fed,
            None => Seq::empty(),
        }
    }

    /// The same writers, but for that of `method`.
    pub open spec fn with(self, method: i8, slot: Option<Seq<Seq<u8>>>) -> CompressView {
        if method == COMPRESS_METHOD_GZIP {
            CompressView { gz: slot, ..self }
        } else if method == COMPRESS_METHOD_DEFLATE {
            CompressView { de: slot, ..self }
        } else {
            CompressView { br: slot, ..self }
        }
    }
}

/// What the writer of `method` that was fed `fed` puts out for `data`, or
/// `None` where it fails.
pub open spec fn emitted(method: i8, fed: Seq<Seq<u8>>, data: Seq<u8>) -> Option<Seq<u8>> {
    if method == COMPRESS_METHOD_GZIP {
        gzip_emitted(fed, data)
    } else if method == COMPRESS_METHOD_DEFLATE {
        deflate_emitted(fed, data)
    } else {
        brotli_emitted(fed, data)
    }
}

/// What the writer of `method` that was fed `fed` puts out when the stream
/// ends, or `None` where it fails.
pub open spec fn trailer(method: i8, fed: Seq<Seq<u8>>) -> Option<Seq<u8>> {
    if method == COMPRESS_METHOD_GZIP {
        gzip_trailer(fed)
    } else if method == COMPRESS_METHOD_DEFLATE {
        deflate_trailer(fed)
    } else {
        brotli_trailer(fed)
    }
}

/// The writers of a body.
pub struct InnerCompress {
    write_gz: Option<GzipWriter>,
    write_br: Option<BrotliWriter>,
    write_de: Option<DeflateWriter>,
}

impl View for InnerCompress {
    type V = CompressView;

    closed spec fn view(&self) -> CompressView {
        CompressView {
            gz: match self.write_gz {
                Some(w) => Some(gzip_fed(w)),
                None => None,
            },
            de: match self.write_de {
                Some(w) => Some(deflate_fed(w)),
                None => None,
            },
            br: match self.write_br {
                Some(w) => Some(brotli_fed(w)),
                None => None,
            },
        }
    }
}

impl InnerCompress {
    pub fn new() -> (s: Self)
        ensures
            s@ == CompressView::none(),
    {
        InnerCompress { write_gz: None, write_br: None, write_de: None }
    }

    /// Opens the gzip writer unless it is open.
    pub fn open_write_gz(&mut self)
        ensures
            final(self)@ == old(self)@.with(
                COMPRESS_METHOD_GZIP,
                Some(old(self)@.fed(COMPRESS_METHOD_GZIP)),
            ),
    {
        if self.write_gz.is_none() {
            self.write_gz = Some(gzip_open());
        }
    }

    /// Opens the deflate writer unless it is open.
    pub fn open_write_de(&mut self)
        ensures
            final(self)@ == old(self)@.with(
                COMPRESS_METHOD_DEFLATE,
                Some(old(self)@.fed(COMPRESS_METHOD_DEFLATE)),
            ),
    {
        if self.write_de.is_none() {
            self.write_de = Some(deflate_open());
        }
    }

    /// Opens the brotli writer unless it is open.
    pub fn open_write_br(&mut self)
        ensures
            final(self)@ == old(self)@.with(
                COMPRESS_METHOD_BROTLI,
                Some(old(self)@.fed(COMPRESS_METHOD_BROTLI)),
            ),
    {
        if self.write_br.is_none() {
            self.write_br = Some(brotli_open());
        }
    }

    /// Writes `data` to the writer of `method`, which is opened if need be, and
    /// returns what the writer put out. A writer that fails is closed.
    pub fn write(&mut self, method: i8, data: &[u8]) -> (r: Result<Vec<u8>, ProtError>)
        requires
            is_coding(method),
        ensures
            match emitted(method, old(self)@.fed(method), data@) {
                Some(out) => r is Ok && r->Ok_0@ == out && final(self)@ == old(self)@.with(
                    method,
                    Some(old(self)@.fed(method).push(data@)),
                ),
                None => r == Err::<Vec<u8>, ProtError>(ProtError::Compression) && final(self)@
                    == old(self)@.with(method, None),
            },
    {
        if method == COMPRESS_METHOD_GZIP {
            self.open_write_gz();
            let mut w = self.write_gz.take().unwrap();
            match gzip_write(&mut w, data) {
                Ok(out) => {
                    self.write_gz = Some(w);
                    Ok(out)
                },
                Err(_) => Err(ProtError::Compression),
            }
        } else if method == COMPRESS_METHOD_DEFLATE {
            self.open_write_de();
            let mut w = self.write_de.take().unwrap();
            match deflate_write(&mut w, data) {
                Ok(out) => {
                    self.write_de = Some(w);
                    Ok(out)
                },
                Err(_) => Err(ProtError::Compression),
            }
        } else {
            self.open_write_br();
            let mut w = self.write_br.take().unwrap();
            match brotli_write(&mut w, data) {
                Ok(out) => {
                    self.write_br = Some(w);
                    Ok(out)
                },
                Err(_) => Err(ProtError::Compression),
            }
        }
    }

    /// Ends the stream of the writer of `method`, which is opened if need be,
    /// and returns what the writer put out last. The writer is closed.
    pub fn finish(&mut self, method: i8) -> (r: Result<Vec<u8>, ProtError>)
        requires
            is_coding(method),
        ensures
            final(self)@ == old(self)@.with(method, None),
            match trailer(method, old(self)@.fed(method)) {
                Some(out) => r is Ok && r->Ok_0@ == out,
                None => r == Err::<Vec<u8>, ProtError>(ProtError::Compression),
            },
    {
        if method == COMPRESS_METHOD_GZIP {
            self.open_write_gz();
            let w = self.write_gz.take().unwrap();
            match gzip_finish(w) {
                Ok(out) => Ok(out),
                Err(_) => Err(ProtError::Compression),
            }
        } else if method == COMPRESS_METHOD_DEFLATE {
            self.open_write_de();
            let w = self.write_de.take().unwrap();
            match deflate_finish(w) {
                Ok(out) => Ok(out),
                Err(_) => Err(ProtError::Compression),
            }
        } else {
            self.open_write_br();
            let w = self.write_br.take().unwrap();
            match brotli_finish(w) {
                Ok(out) => Ok(out),
                Err(_) => Err(ProtError::Compression),
            }
        }
    }
}

/// What has been done to the readers of a body: for each coding the log of
/// its writes and reads, or `None` while its reader is not open.
pub struct DecompressView {
    pub gz: Option<Seq<ReadEvent>>,
    pub de: Option<Seq<ReadEvent>>,
    pub br: Option<Seq<ReadEvent>>,
}

impl DecompressView {
    /// No reader is open.
    pub open spec fn none() -> DecompressView {
        DecompressView { gz: None, de: None, br: None }
    }

    /// The reader of `method`.
    pub open spec fn slot(self, method: i8) -> Option<Seq<ReadEvent>> {
        if method == COMPRESS_METHOD_GZIP {
            self.gz
        } else if method == COMPRESS_METHOD_DEFLATE {
            self.de
        } else {
            self.br
        }
    }

    /// The log of the reader of `method`; empty where it is not open.
    pub open spec fn log(self, method: i8) -> Seq<ReadEvent> {
        match self.slot(method) {
            Some(log) => log,
            None => Seq::empty(),
        }
    }

    /// The same readers, but for that of `method`.
    pub open spec fn with(self, method: i8, slot: Option<Seq<ReadEvent>>) -> DecompressView {
        if method == COMPRESS_METHOD_GZIP {
            DecompressView { gz: slot, ..self }
        } else if method == COMPRESS_METHOD_DEFLATE {
            DecompressView { de: slot, ..self }
        } else {
            DecompressView { br: slot, ..self }
        }
    }
}

/// What a read into `cap` bytes gives on the reader of `method` with the log
/// `log`.
pub open spec fn read_result(method: i8, log: Seq<ReadEvent>, cap: usize) -> ReadOutcome {
    if method == COMPRESS_METHOD_GZIP {
        gunzip_read(log, cap)
    } else if method == COMPRESS_METHOD_DEFLATE {
        inflate_read(log, cap)
    } else {
        unbrotli_read(log, cap)
    }
}

/// The outcome of reading a reader as far as it gives bytes.
pub struct Drained {
    /// The bytes read, in order.
    pub bytes: Seq<u8>,
    /// The reader's log afterwards.
    pub log: Seq<ReadEvent>,
    /// Whether no read failed, the count of bytes stayed in range, and, where
    /// the stream was to be read to its end, the reader came to that end.
    pub ok: bool,
}

/// Reads the reader of `method` into buffers of `READ_CHUNK_SIZE` bytes.
/// `size` is the number of bytes read before; the reading ends, as a failure,
/// where a read fails or that count would leave the range of `usize`.
///
/// In the middle of a stream, with `to_end` false, the reading ends where a
/// read gives less than a full buffer, or nothing because the reader asks for
/// more input: more will come. With `to_end` true the stream is to end here:
/// the reading goes on until a read gives no byte, which is how a reader tells
/// that its stream is complete; a reader that asks for more input has a
/// stream that is cut off, and that is a failure.
pub open spec fn drained(method: i8, log: Seq<ReadEvent>, size: nat, to_end: bool) -> Drained
    decreases usize::MAX - size,
{
    let after = log.push(read_event(READ_CHUNK_SIZE));
    match read_result(method, log, READ_CHUNK_SIZE) {
        ReadOutcome::Failed => Drained { bytes: Seq::empty(), log: after, ok: false },
        ReadOutcome::Starved => Drained { bytes: Seq::empty(), log: after, ok: !to_end },
        ReadOutcome::Bytes(piece) => {
            if size + piece.len() > usize::MAX {
                Drained { bytes: piece, log: after, ok: false }
            } else if piece.len() == 0 || (!to_end && piece.len() < READ_CHUNK_SIZE) {
                Drained { bytes: piece, log: after, ok: true }
            } else {
                let rest = drained(method, after, size + piece.len(), to_end);
                Drained { bytes: piece + rest.bytes, log: rest.log, ok: rest.ok }
            }
        },
    }
}

/// The readers of a body.
pub struct InnerDecompress {
    reader_gz: Option<GzDecoder<BinaryMut>>,
    reader_br: Option<BrotliReader>,
    reader_de: Option<DeflateDecoder<BinaryMut>>,
}

impl View for InnerDecompress {
    type V = DecompressView;

    closed spec fn view(&self) -> DecompressView {
        DecompressView {
            gz: match self.reader_gz {
                Some(r) => Some(gunzip_log(r)),
                None => None,
            },
            de: match self.reader_de {
                Some(r) => Some(inflate_log(r)),
                None => None,
            },
            br: match self.reader_br {
                Some(r) => Some(unbrotli_log(r)),
                None => None,
            },
        }
    }
}

impl InnerDecompress {
    pub fn new() -> (s: Self)
        ensures
            s@ == DecompressView::none(),
    {
        InnerDecompress { reader_gz: None, reader_br: None, reader_de: None }
    }

    /// Opens the gzip reader unless it is open.
    pub fn open_reader_gz(&mut self)
        ensures
            final(self)@ == old(self)@.with(
                COMPRESS_METHOD_GZIP,
                Some(old(self)@.log(COMPRESS_METHOD_GZIP)),
            ),
    {
        if self.reader_gz.is_none() {
            self.reader_gz = Some(gunzip_open());
        }
    }

    /// Opens the deflate reader unless it is open.
    pub fn open_reader_de(&mut self)
        ensures
            final(self)@ == old(self)@.with(
                COMPRESS_METHOD_DEFLATE,
                Some(old(self)@.log(COMPRESS_METHOD_DEFLATE)),
            ),
    {
        if self.reader_de.is_none() {
            self.reader_de = Some(inflate_open());
        }
    }

    /// Opens the brotli reader unless it is open.
    pub fn open_reader_br(&mut self)
        ensures
            final(self)@ == old(self)@.with(
                COMPRESS_METHOD_BROTLI,
                Some(old(self)@.log(COMPRESS_METHOD_BROTLI)),
            ),
    {
        if self.reader_br.is_none() {
            self.reader_br = Some(unbrotli_open());
        }
    }

    /// Whether the reader of `method` is open: bytes were handed to it.
    pub fn is_open(&self, method: i8) -> (r: bool)
        requires
            is_coding(method),
        ensures
            r == (self@.slot(method) is Some),
    {
        if method == COMPRESS_METHOD_GZIP {
            self.reader_gz.is_some()
        } else if method == COMPRESS_METHOD_DEFLATE {
            self.reader_de.is_some()
        } else {
            self.reader_br.is_some()
        }
    }

    /// Hands `data` to the reader of `method`, which is opened if need be.
    pub fn feed(&mut self, method: i8, data: &[u8])
        requires
            is_coding(method),
        ensures
            final(self)@ == old(self)@.with(
                method,
                Some(old(self)@.log(method).push(fed_event(data@))),
            ),
    {
        if method == COMPRESS_METHOD_GZIP {
            self.open_reader_gz();
            let mut r = self.reader_gz.take().unwrap();
            gunzip_feed(&mut r, data);
            self.reader_gz = Some(r);
        } else if method == COMPRESS_METHOD_DEFLATE {
            self.open_reader_de();
            let mut r = self.reader_de.take().unwrap();
            inflate_feed(&mut r, data);
            self.reader_de = Some(r);
        } else {
            self.open_reader_br();
            let mut r = self.reader_br.take().unwrap();
            unbrotli_feed(&mut r, data);
            self.reader_br = Some(r);
        }
    }

    /// Reads at most `cap` bytes from the reader of `method`, which is opened
    /// if need be.
    pub fn take(&mut self, method: i8, cap: usize) -> (r: Taken)
        requires
            is_coding(method),
        ensures
            final(self)@ == old(self)@.with(
                method,
                Some(old(self)@.log(method).push(read_event(cap))),
            ),
            r@ == read_result(method, old(self)@.log(method), cap),
            r matches Taken::Bytes(bytes) ==> bytes@.len() <= cap,
    {
        if method == COMPRESS_METHOD_GZIP {
            self.open_reader_gz();
            let mut r = self.reader_gz.take().unwrap();
            let res = gunzip_take(&mut r, cap);
            self.reader_gz = Some(r);
            res
        } else if method == COMPRESS_METHOD_DEFLATE {
            self.open_reader_de();
            let mut r = self.reader_de.take().unwrap();
            let res = inflate_take(&mut r, cap);
            self.reader_de = Some(r);
            res
        } else {
            self.open_reader_br();
            let mut r = self.reader_br.take().unwrap();
            let res = unbrotli_take(&mut r, cap);
            self.reader_br = Some(r);
            res
        }
    }
}

/// Moves into `read_buf` what the reader of `method` gives in the middle of
/// its stream, buffer by buffer, until a read gives less than a full buffer,
/// or nothing because the reader asks for more input, and returns the number
/// of bytes moved. What was read before a failure stays in `read_buf`.
pub fn read_all_data(read_buf: &mut BinaryMut, read: &mut InnerDecompress, method: i8) -> (r:
    Result<usize, ProtError>)
    requires
        is_coding(method),
    ensures
        ({
            let d = drained(method, old(read)@.log(method), 0, false);
            &&& mut_bytes(*final(read_buf)) == mut_bytes(*old(read_buf)) + d.bytes
            &&& final(read)@ == old(read)@.with(method, Some(d.log))
            &&& if d.ok {
                r == Ok::<usize, ProtError>(d.bytes.len() as usize)
            } else {
                r == Err::<usize, ProtError>(ProtError::Compression)
            }
        }),
{
    read_pieces(read_buf, read, method, false)
}

/// Moves into `read_buf` what the reader of `method` gives up to the end of
/// its stream, and returns the number of bytes moved. A reader that asks for
/// more input has a stream that is cut off: that is an error, as is a read
/// that fails. What was read before stays in `read_buf`.
pub fn read_to_end(read_buf: &mut BinaryMut, read: &mut InnerDecompress, method: i8) -> (r:
    Result<usize, ProtError>)
    requires
        is_coding(method),
    ensures
        ({
            let d = drained(method, old(read)@.log(method), 0, true);
            &&& mut_bytes(*final(read_buf)) == mut_bytes(*old(read_buf)) + d.bytes
            &&& final(read)@ == old(read)@.with(method, Some(d.log))
            &&& if d.ok {
                r == Ok::<usize, ProtError>(d.bytes.len() as usize)
            } else {
                r == Err::<usize, ProtError>(ProtError::Compression)
            }
        }),
{
    read_pieces(read_buf, read, method, true)
}

/// Moves into `read_buf` what the reader of `method` gives: see [`drained`].
fn read_pieces(read_buf: &mut BinaryMut, read: &mut InnerDecompress, method: i8, to_end: bool) -> (r:
    Result<usize, ProtError>)
    requires
        is_coding(method),
    ensures
        ({
            let d = drained(method, old(read)@.log(method), 0, to_end);
            &&& mut_bytes(*final(read_buf)) == mut_bytes(*old(read_buf)) + d.bytes
            &&& final(read)@ == old(read)@.with(method, Some(d.log))
            &&& if d.ok {
                r == Ok::<usize, ProtError>(d.bytes.len() as usize)
            } else {
                r == Err::<usize, ProtError>(ProtError::Compression)
            }
        }),
{
    let mut size: usize = 0;
    let ghost all = drained(method, old(read)@.log(method), 0, to_end);
    let ghost moved = Seq::<u8>::empty();
    proof {
        assert(mut_bytes(*read_buf) =~= mut_bytes(*old(read_buf)) + moved);
        assert(read@ =~= old(read)@.with(method, read@.slot(method)));
    }
    loop
        invariant
            is_coding(method),
            read@ == old(read)@.with(method, read@.slot(method)),
            mut_bytes(*read_buf) == mut_bytes(*old(read_buf)) + moved,
            moved.len() == size,
            all == drained(method, old(read)@.log(method), 0, to_end),
            ({
                let rest = drained(method, read@.log(method), size as nat, to_end);
                &&& all.bytes == moved + rest.bytes
                &&& all.log == rest.log
                &&& all.ok == rest.ok
            }),
        decreases usize::MAX - size,
    {
        let ghost rest = drained(method, read@.log(method), size as nat, to_end);
        let ghost log = read@.log(method);
        let res = read.take(method, READ_CHUNK_SIZE);
        proof {
            assert(read@ =~= old(read)@.with(
                method,
                Some(log.push(read_event(READ_CHUNK_SIZE))),
            ));
        }
        match res {
            Taken::Failed => {
                proof {
                    assert(rest.bytes =~= Seq::<u8>::empty());
                    assert(moved + rest.bytes =~= moved);
                }
                return Err(ProtError::Compression);
            },
            Taken::Starved => {
                proof {
                    assert(rest.bytes =~= Seq::<u8>::empty());
                    assert(moved + rest.bytes =~= moved);
                }
                if to_end {
                    return Err(ProtError::Compression);
                }
                return Ok(size);
            },
            Taken::Bytes(piece) => {
                put_slice(read_buf, piece.as_slice());
                proof {
                    assert(mut_bytes(*read_buf) =~= mut_bytes(*old(read_buf)) + (moved + piece@));
                }
                if size > usize::MAX - piece.len() {
                    return Err(ProtError::Compression);
                }
                if piece.len() == 0 || (!to_end && piece.len() < READ_CHUNK_SIZE) {
                    return Ok(size + piece.len());
                }
                proof {
                    let next = drained(
                        method,
                        read@.log(method),
                        (size + piece.len()) as nat,
                        to_end,
                    );
                    assert(moved + (piece@ + next.bytes) =~= (moved + piece@) + next.bytes);
                    moved = moved + piece@;
                }
                size = size + piece.len();
            },
        }
    }
}

} // verus!
