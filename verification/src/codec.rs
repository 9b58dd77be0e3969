//! The streaming coders of `flate2` and `brotli`, each over a `BinaryMut`.
//!
//! What a coder puts out is a function of everything that was done to it, and
//! takes the coder's whole source to state. So each writer is known here by the
//! pieces it has been fed, each reader by the log of its writes and reads, and
//! what a call gives back has a name applied to that history. None of the
//! contracts in this file is proved.

use vstd::prelude::*;
use std::io::{Read, Write};
use algorithm::buf::{BinaryMut, Bt};
use flate2::write::{DeflateEncoder, GzEncoder};
use flate2::read::{DeflateDecoder, GzDecoder};
use flate2::Compression;
use brotli::{CompressorWriter, Decompressor};

verus! {

#[verifier::external_type_specification]
#[verifier::external_body]
pub struct ExIoError(std::io::Error);

#[verifier::external_type_specification]
#[verifier::external_body]
#[verifier::reject_recursive_types(R)]
pub struct ExGzDecoder<R>(GzDecoder<R>);

#[verifier::external_type_specification]
#[verifier::external_body]
#[verifier::reject_recursive_types(R)]
pub struct ExDeflateDecoder<R>(DeflateDecoder<R>);

/// A gzip stream being written: `flate2::write::GzEncoder` over a `BinaryMut`
/// that is emptied after every write.
#[verifier::external_body]
pub struct GzipWriter {
    inner: GzEncoder<BinaryMut>,
}

/// A raw deflate stream being written: `flate2::write::DeflateEncoder` over a
/// `BinaryMut` that is emptied after every write.
#[verifier::external_body]
pub struct DeflateWriter {
    inner: DeflateEncoder<BinaryMut>,
}

/// A brotli stream being written: `brotli::CompressorWriter` over a
/// `BinaryMut` that is emptied after every write.
#[verifier::external_body]
pub struct BrotliWriter {
    inner: CompressorWriter<BinaryMut>,
}

/// A brotli stream being read: `brotli::Decompressor` over a `BinaryMut` that
/// holds the compressed bytes not yet consumed.
#[verifier::external_body]
pub struct BrotliReader {
    inner: Decompressor<BinaryMut>,
}

/// What a read on a reader gave.
pub enum Taken {
    /// These bytes.
    Bytes(Vec<u8>),
    /// Nothing: the reader has taken all its input and asks for more.
    Starved,
    /// Nothing: the reader cannot make sense of its input.
    Failed,
}

/// [`Taken`] by its bytes.
pub enum ReadOutcome {
    Bytes(Seq<u8>),
    Starved,
    Failed,
}

impl View for Taken {
    type V = ReadOutcome;

    open spec fn view(&self) -> ReadOutcome {
        match *self {
            Taken::Bytes(bytes) => ReadOutcome::Bytes(bytes@),
            Taken::Starved => ReadOutcome::Starved,
            Taken::Failed => ReadOutcome::Failed,
        }
    }
}

/// One entry of a reader's log: a write of some bytes, recorded as `-1` and the
/// bytes, or a read into a buffer, recorded as the buffer's length and no bytes.
pub type ReadEvent = (int, Seq<u8>);

pub open spec fn fed_event(data: Seq<u8>) -> ReadEvent {
    (-1, data)
}

pub open spec fn read_event(cap: usize) -> ReadEvent {
    (cap as int, Seq::<u8>::empty())
}

/// The pieces written to a gzip writer so far, in order.
pub uninterp spec fn gzip_fed(w: GzipWriter) -> Seq<Seq<u8>>;

/// What a gzip writer that was fed `fed` puts out when `data` is written to it,
/// or `None` where that write fails.
pub uninterp spec fn gzip_emitted(fed: Seq<Seq<u8>>, data: Seq<u8>) -> Option<Seq<u8>>;

/// What a gzip writer that was fed `fed` puts out when it is finished, or `None`
/// where finishing fails.
pub uninterp spec fn gzip_trailer(fed: Seq<Seq<u8>>) -> Option<Seq<u8>>;

/// The pieces written to a deflate writer so far, in order.
pub uninterp spec fn deflate_fed(w: DeflateWriter) -> Seq<Seq<u8>>;

/// What a deflate writer that was fed `fed` puts out when `data` is written to
/// it, or `None` where that write fails.
pub uninterp spec fn deflate_emitted(fed: Seq<Seq<u8>>, data: Seq<u8>) -> Option<Seq<u8>>;

/// What a deflate writer that was fed `fed` puts out when it is finished, or
/// `None` where finishing fails.
pub uninterp spec fn deflate_trailer(fed: Seq<Seq<u8>>) -> Option<Seq<u8>>;

/// The pieces written to a brotli writer so far, in order.
pub uninterp spec fn brotli_fed(w: BrotliWriter) -> Seq<Seq<u8>>;

/// What a brotli writer that was fed `fed` puts out when `data` is written to
/// it, or `None` where that write fails.
pub uninterp spec fn brotli_emitted(fed: Seq<Seq<u8>>, data: Seq<u8>) -> Option<Seq<u8>>;

/// What a brotli writer that was fed `fed` puts out when it is flushed and
/// closed, or `None` where the flush fails.
pub uninterp spec fn brotli_trailer(fed: Seq<Seq<u8>>) -> Option<Seq<u8>>;

/// The writes and reads made on a gzip reader so far, in order.
pub uninterp spec fn gunzip_log(r: GzDecoder<BinaryMut>) -> Seq<ReadEvent>;

/// What a read into a buffer of `cap` bytes gives on a gzip reader with the log
/// `log`.
pub uninterp spec fn gunzip_read(log: Seq<ReadEvent>, cap: usize) -> ReadOutcome;

/// The writes and reads made on a deflate reader so far, in order.
pub uninterp spec fn inflate_log(r: DeflateDecoder<BinaryMut>) -> Seq<ReadEvent>;

/// What a read into a buffer of `cap` bytes gives on a deflate reader with the
/// log `log`.
pub uninterp spec fn inflate_read(log: Seq<ReadEvent>, cap: usize) -> ReadOutcome;

/// The writes and reads made on a brotli reader so far, in order.
pub uninterp spec fn unbrotli_log(r: BrotliReader) -> Seq<ReadEvent>;

/// What a read into a buffer of `cap` bytes gives on a brotli reader with the
/// log `log`.
pub uninterp spec fn unbrotli_read(log: Seq<ReadEvent>, cap: usize) -> ReadOutcome;

/// `GzEncoder::new` over an empty buffer, at the default level: nothing fed
/// yet.
#[verifier::external_body]
pub(crate) fn gzip_open() -> (w: GzipWriter)
    ensures
        gzip_fed(w) == Seq::<Seq<u8>>::empty(),
{
    GzipWriter { inner: GzEncoder::new(BinaryMut::new(), Compression::default()) }
}

/// `write_all` on a `GzEncoder`, then what has reached its buffer is taken out
/// of it. The outcome is the named one; on success `data` counts as fed.
#[verifier::external_body]
pub(crate) fn gzip_write(w: &mut GzipWriter, data: &[u8]) -> (r: Result<Vec<u8>, std::io::Error>)
    ensures
        r is Ok ==> gzip_fed(*final(w)) == gzip_fed(*old(w)).push(data@),
        r is Ok ==> gzip_emitted(gzip_fed(*old(w)), data@) == Some(r->Ok_0@),
        r is Err ==> gzip_emitted(gzip_fed(*old(w)), data@) is None,
{
    w.inner.write_all(data)?;
    let out = w.inner.get_ref().chunk().to_vec();
    w.inner.get_mut().clear();
    Ok(out)
}

/// `GzEncoder::finish`, and the bytes left in the buffer: the named end of the
/// stream.
#[verifier::external_body]
pub(crate) fn gzip_finish(w: GzipWriter) -> (r: Result<Vec<u8>, std::io::Error>)
    ensures
        r is Ok ==> gzip_trailer(gzip_fed(w)) == Some(r->Ok_0@),
        r is Err ==> gzip_trailer(gzip_fed(w)) is None,
{
    let sink = w.inner.finish()?;
    Ok(sink.chunk().to_vec())
}

/// `DeflateEncoder::new` over an empty buffer, at the default level: nothing
/// fed yet.
#[verifier::external_body]
pub(crate) fn deflate_open() -> (w: DeflateWriter)
    ensures
        deflate_fed(w) == Seq::<Seq<u8>>::empty(),
{
    DeflateWriter { inner: DeflateEncoder::new(BinaryMut::new(), Compression::default()) }
}

/// `write_all` on a `DeflateEncoder`, then what has reached its buffer is
/// taken out of it. The outcome is the named one; on success `data` counts as
/// fed.
#[verifier::external_body]
pub(crate) fn deflate_write(w: &mut DeflateWriter, data: &[u8]) -> (r: Result<
    Vec<u8>,
    std::io::Error,
>)
    ensures
        r is Ok ==> deflate_fed(*final(w)) == deflate_fed(*old(w)).push(data@),
        r is Ok ==> deflate_emitted(deflate_fed(*old(w)), data@) == Some(r->Ok_0@),
        r is Err ==> deflate_emitted(deflate_fed(*old(w)), data@) is None,
{
    w.inner.write_all(data)?;
    let out = w.inner.get_ref().chunk().to_vec();
    w.inner.get_mut().clear();
    Ok(out)
}

/// `DeflateEncoder::finish`, and the bytes left in the buffer: the named end of
/// the stream.
#[verifier::external_body]
pub(crate) fn deflate_finish(w: DeflateWriter) -> (r: Result<Vec<u8>, std::io::Error>)
    ensures
        r is Ok ==> deflate_trailer(deflate_fed(w)) == Some(r->Ok_0@),
        r is Err ==> deflate_trailer(deflate_fed(w)) is None,
{
    let sink = w.inner.finish()?;
    Ok(sink.chunk().to_vec())
}

/// `CompressorWriter::new` over an empty buffer, with a 4096-byte buffer of its
/// own, quality 11 and a window of 22 bits: nothing fed yet.
#[verifier::external_body]
pub(crate) fn brotli_open() -> (w: BrotliWriter)
    ensures
        brotli_fed(w) == Seq::<Seq<u8>>::empty(),
{
    BrotliWriter { inner: CompressorWriter::new(BinaryMut::new(), 4096, 11, 22) }
}

/// `write_all` on a `CompressorWriter`, then what has reached its buffer is
/// taken out of it. The outcome is the named one; on success `data` counts as
/// fed.
#[verifier::external_body]
pub(crate) fn brotli_write(w: &mut BrotliWriter, data: &[u8]) -> (r: Result<
    Vec<u8>,
    std::io::Error,
>)
    ensures
        r is Ok ==> brotli_fed(*final(w)) == brotli_fed(*old(w)).push(data@),
        r is Ok ==> brotli_emitted(brotli_fed(*old(w)), data@) == Some(r->Ok_0@),
        r is Err ==> brotli_emitted(brotli_fed(*old(w)), data@) is None,
{
    w.inner.write_all(data)?;
    let out = w.inner.get_ref().chunk().to_vec();
    w.inner.get_mut().clear();
    Ok(out)
}

/// `flush`, then `into_inner`, on a `CompressorWriter`, and the bytes left in
/// the buffer: the named end of the stream.
#[verifier::external_body]
pub(crate) fn brotli_finish(w: BrotliWriter) -> (r: Result<Vec<u8>, std::io::Error>)
    ensures
        r is Ok ==> brotli_trailer(brotli_fed(w)) == Some(r->Ok_0@),
        r is Err ==> brotli_trailer(brotli_fed(w)) is None,
{
    let mut inner = w.inner;
    inner.flush()?;
    Ok(inner.into_inner().chunk().to_vec())
}

/// `GzDecoder::new` over an empty buffer: an empty log.
#[verifier::external_body]
pub(crate) fn gunzip_open() -> (r: GzDecoder<BinaryMut>)
    ensures
        gunzip_log(r) == Seq::<ReadEvent>::empty(),
{
    GzDecoder::new(BinaryMut::new())
}

/// `put_slice` on the buffer that a `GzDecoder` reads from. The write is
/// logged.
#[verifier::external_body]
pub(crate) fn gunzip_feed(r: &mut GzDecoder<BinaryMut>, data: &[u8])
    ensures
        gunzip_log(*final(r)) == gunzip_log(*old(r)).push(fed_event(data@)),
{
    r.get_mut().put_slice(data);
}

/// `read` on a `GzDecoder`, into a fresh buffer of `cap` bytes. The read is
/// logged; it gives the named outcome, which tells an error of the kind
/// `WouldBlock` from any other, and never more bytes than the buffer holds.
#[verifier::external_body]
pub(crate) fn gunzip_take(r: &mut GzDecoder<BinaryMut>, cap: usize) -> (res: Taken)
    ensures
        gunzip_log(*final(r)) == gunzip_log(*old(r)).push(read_event(cap)),
        res@ == gunzip_read(gunzip_log(*old(r)), cap),
        res matches Taken::Bytes(bytes) ==> bytes@.len() <= cap,
{
    let mut buf = vec![0u8; cap];
    match r.read(&mut buf) {
        Ok(n) => {
            buf.truncate(n);
            Taken::Bytes(buf)
        },
        Err(e) if e.kind() == std::io::ErrorKind::WouldBlock => Taken::Starved,
        Err(_) => Taken::Failed,
    }
}

/// `DeflateDecoder::new` over an empty buffer: an empty log.
#[verifier::external_body]
pub(crate) fn inflate_open() -> (r: DeflateDecoder<BinaryMut>)
    ensures
        inflate_log(r) == Seq::<ReadEvent>::empty(),
{
    DeflateDecoder::new(BinaryMut::new())
}

/// `put_slice` on the buffer that a `DeflateDecoder` reads from. The write is
/// logged.
#[verifier::external_body]
pub(crate) fn inflate_feed(r: &mut DeflateDecoder<BinaryMut>, data: &[u8])
    ensures
        inflate_log(*final(r)) == inflate_log(*old(r)).push(fed_event(data@)),
{
    r.get_mut().put_slice(data);
}

/// `read` on a `DeflateDecoder`, into a fresh buffer of `cap` bytes. The read is
/// logged; it gives the named outcome, which tells an error of the kind
/// `WouldBlock` from any other, and never more bytes than the buffer holds.
#[verifier::external_body]
pub(crate) fn inflate_take(r: &mut DeflateDecoder<BinaryMut>, cap: usize) -> (res: Taken)
    ensures
        inflate_log(*final(r)) == inflate_log(*old(r)).push(read_event(cap)),
        res@ == inflate_read(inflate_log(*old(r)), cap),
        res matches Taken::Bytes(bytes) ==> bytes@.len() <= cap,
{
    let mut buf = vec![0u8; cap];
    match r.read(&mut buf) {
        Ok(n) => {
            buf.truncate(n);
            Taken::Bytes(buf)
        },
        Err(e) if e.kind() == std::io::ErrorKind::WouldBlock => Taken::Starved,
        Err(_) => Taken::Failed,
    }
}

/// `Decompressor::new` over an empty buffer, with a 4096-byte buffer of its
/// own: an empty log.
#[verifier::external_body]
pub(crate) fn unbrotli_open() -> (r: BrotliReader)
    ensures
        unbrotli_log(r) == Seq::<ReadEvent>::empty(),
{
    BrotliReader { inner: Decompressor::new(BinaryMut::new(), 4096) }
}

/// `put_slice` on the buffer that a `Decompressor` reads from. The write is
/// logged.
#[verifier::external_body]
pub(crate) fn unbrotli_feed(r: &mut BrotliReader, data: &[u8])
    ensures
        unbrotli_log(*final(r)) == unbrotli_log(*old(r)).push(fed_event(data@)),
{
    r.inner.get_mut().put_slice(data);
}

/// `read` on a `Decompressor`, into a fresh buffer of `cap` bytes. The read is
/// logged; it gives the named outcome, which tells an error of the kind
/// `WouldBlock` from any other, and never more bytes than the buffer holds.
#[verifier::external_body]
pub(crate) fn unbrotli_take(r: &mut BrotliReader, cap: usize) -> (res: Taken)
    ensures
        unbrotli_log(*final(r)) == unbrotli_log(*old(r)).push(read_event(cap)),
        res@ == unbrotli_read(unbrotli_log(*old(r)), cap),
        res matches Taken::Bytes(bytes) ==> bytes@.len() <= cap,
{
    let mut buf = vec![0u8; cap];
    match r.inner.read(&mut buf) {
        Ok(n) => {
            buf.truncate(n);
            Taken::Bytes(buf)
        },
        Err(e) if e.kind() == std::io::ErrorKind::WouldBlock => Taken::Starved,
        Err(_) => Taken::Failed,
    }
}

} // verus!
