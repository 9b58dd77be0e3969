//! The framing of an HTTP/2 connection: where one frame ends in the bytes
//! read, and the bytes that wait to be written.

use vstd::prelude::*;
use algorithm::buf::BinaryMut;
use crate::binary::{advance, chunk, mut_bytes, new_mut, put_slice, remaining};
use crate::consts::{DEFAULT_MAX_FRAME_SIZE, DEFAULT_SETTINGS_HEADER_TABLE_SIZE};
use crate::error::ProtError;
use crate::http2::frame::{Frame, FrameView, Settings};

verus! {

/// The bytes in front of every frame: three for the length of what follows
/// them, six for the rest.
pub const FRAME_HEADER_LEN: usize = 9;

/// The number of bytes that may wait to be written before the codec asks to
/// flush first.
pub const WRITE_SOFT_CAP: usize = 16_384;

/// The length that the first three bytes announce, most significant first.
pub open spec fn announced_len(buf: Seq<u8>) -> int
    recommends
        buf.len() >= 3,
{
    buf[0] * 65536 + buf[1] * 256 + buf[2]
}

/// The largest length that the first three bytes of a frame may announce: a
/// frame that announces more is refused.
pub const MAX_FRAME_LEN: usize = 8_388_608;

/// Whether the frame at the front of `buf` announces more bytes than a frame
/// may hold; that shows as soon as the three bytes of the length are there.
pub open spec fn frame_too_long(buf: Seq<u8>) -> bool {
    buf.len() >= 3 && announced_len(buf) > MAX_FRAME_LEN
}

/// The length of the frame at the front of `buf`, header included, if the
/// whole frame is there.
pub open spec fn frame_len(buf: Seq<u8>) -> Option<int> {
    if buf.len() >= FRAME_HEADER_LEN && buf.len() >= FRAME_HEADER_LEN + announced_len(buf) {
        Some(FRAME_HEADER_LEN + announced_len(buf))
    } else {
        None
    }
}

/// What a [`Codec`] holds.
pub struct CodecView {
    /// The bytes read that are not cut into frames yet.
    pub read: Seq<u8>,
    /// The bytes that wait to be written.
    pub write: Seq<u8>,
    /// The size of the table that compresses the headers sent.
    pub header_table_size: usize,
    /// The largest payload that is sent in one frame.
    pub max_send_frame_size: usize,
}

impl CodecView {
    /// The codec after the peer declared `settings`: the size of the table
    /// that compresses the headers and the largest payload of a frame are
    /// those that the peer declares; a size that it does not declare stays,
    /// and an acknowledgement declares nothing.
    pub open spec fn declared(self, settings: Settings) -> CodecView {
        if settings.is_ack {
            self
        } else {
            CodecView {
                header_table_size: match settings.header_table_size {
                    Some(size) => size as usize,
                    None => self.header_table_size,
                },
                max_send_frame_size: match settings.max_frame_size {
                    Some(size) => size as usize,
                    None => self.max_send_frame_size,
                },
                ..self
            }
        }
    }

    /// The codec after a frame came in: settings are taken note of, any
    /// other frame changes nothing.
    pub open spec fn frame_noted(self, frame: FrameView) -> CodecView {
        match frame {
            FrameView::Settings { settings, .. } => self.declared(settings),
            _ => self,
        }
    }
}

/// The framing of one connection.
pub struct Codec {
    read_buf: BinaryMut,
    write_buf: BinaryMut,
    header_table_size: usize,
    max_send_frame_size: usize,
}

impl View for Codec {
    type V = CodecView;

    closed spec fn view(&self) -> CodecView {
        CodecView {
            read: mut_bytes(self.read_buf),
            write: mut_bytes(self.write_buf),
            header_table_size: self.header_table_size,
            max_send_frame_size: self.max_send_frame_size,
        }
    }
}

impl Codec {
    /// A codec with the sizes that hold until the peer declares others.
    pub fn new() -> (c: Codec)
        ensures
            c@ == (CodecView {
                read: Seq::empty(),
                write: Seq::empty(),
                header_table_size: DEFAULT_SETTINGS_HEADER_TABLE_SIZE,
                max_send_frame_size: DEFAULT_MAX_FRAME_SIZE,
            }),
    {
        Self::with_max_recv_frame_size(DEFAULT_MAX_FRAME_SIZE)
    }

    /// A codec with the sizes that hold until the peer declares others. The
    /// size of the frames received is limited by `MAX_FRAME_LEN` alone.
    pub fn with_max_recv_frame_size(_max_frame_size: usize) -> (c: Codec)
        ensures
            c@ == (CodecView {
                read: Seq::empty(),
                write: Seq::empty(),
                header_table_size: DEFAULT_SETTINGS_HEADER_TABLE_SIZE,
                max_send_frame_size: DEFAULT_MAX_FRAME_SIZE,
            }),
    {
        Codec {
            read_buf: new_mut(),
            write_buf: new_mut(),
            header_table_size: DEFAULT_SETTINGS_HEADER_TABLE_SIZE,
            max_send_frame_size: DEFAULT_MAX_FRAME_SIZE,
        }
    }

    /// Takes the codec apart: the bytes read that are not cut into frames,
    /// and the bytes that waited to be written.
    pub fn into_io_with_cache(self) -> (r: (BinaryMut, BinaryMut))
        ensures
            mut_bytes(r.0) == self@.read,
            mut_bytes(r.1) == self@.write,
    {
        (self.read_buf, self.write_buf)
    }

    /// Whether nothing waits to be written.
    pub fn is_write_end(&self) -> (r: bool)
        ensures
            r == (self@.write.len() == 0),
    {
        remaining(&self.write_buf) == 0
    }

    /// Whether the codec can take a frame to write: not while more than
    /// `WRITE_SOFT_CAP` bytes wait.
    pub fn poll_ready(&self) -> (r: bool)
        ensures
            r == (self@.write.len() <= WRITE_SOFT_CAP),
    {
        remaining(&self.write_buf) <= WRITE_SOFT_CAP
    }

    /// The bytes that wait to be written.
    pub fn write_buf(&self) -> (s: &[u8])
        ensures
            s@ == self@.write,
    {
        chunk(&self.write_buf)
    }

    /// Takes note that the first `n` of the bytes that waited were written.
    /// Returns whether none is left.
    pub fn poll_flush(&mut self, n: usize) -> (done: bool)
        requires
            n <= old(self)@.write.len(),
        ensures
            final(self)@ == (CodecView { write: old(self)@.write.skip(n as int), ..old(self)@ }),
            done == (final(self)@.write.len() == 0),
    {
        advance(&mut self.write_buf, n);
        remaining(&self.write_buf) == 0
    }

    /// Puts the bytes of a frame behind those that wait to be written, and
    /// returns their number.
    pub fn send_frame(&mut self, frame: &[u8]) -> (n: usize)
        ensures
            final(self)@ == (CodecView { write: old(self)@.write + frame@, ..old(self)@ }),
            n == frame@.len(),
    {
        put_slice(&mut self.write_buf, frame)
    }

    /// Sets the size of the table that compresses the headers sent.
    pub fn set_send_header_table_size(&mut self, size: usize)
        ensures
            final(self)@ == (CodecView { header_table_size: size, ..old(self)@ }),
    {
        self.header_table_size = size;
    }

    /// The size of the table that compresses the headers sent.
    pub fn send_header_table_size(&self) -> (size: usize)
        ensures
            size == self@.header_table_size,
    {
        self.header_table_size
    }

    /// Sets the largest payload that is sent in one frame.
    pub fn set_max_send_frame_size(&mut self, size: usize)
        ensures
            final(self)@ == (CodecView { max_send_frame_size: size, ..old(self)@ }),
    {
        self.max_send_frame_size = size;
    }

    /// The largest payload that is sent in one frame.
    pub fn max_send_frame_size(&self) -> (size: usize)
        ensures
            size == self@.max_send_frame_size,
    {
        self.max_send_frame_size
    }

    /// Takes note of the settings that the peer declared: see
    /// [`CodecView::declared`].
    pub fn recv_settings(&mut self, settings: &Settings)
        ensures
            final(self)@ == old(self)@.declared(*settings),
    {
        if settings.is_ack {
            return ;
        }
        match settings.header_table_size {
            Some(size) => {
                self.header_table_size = size as usize;
            },
            None => {},
        }
        match settings.max_frame_size {
            Some(size) => {
                self.max_send_frame_size = size as usize;
            },
            None => {},
        }
    }

    /// Takes note of a frame that came in: see [`CodecView::frame_noted`].
    pub fn note_frame(&mut self, frame: &Frame)
        ensures
            final(self)@ == old(self)@.frame_noted(frame@),
    {
        match frame {
            Frame::Settings { settings, .. } => {
                self.recv_settings(settings);
            },
            _ => {},
        }
    }

    /// Puts bytes that were read and bytes that were to be written before
    /// into the codec, behind those it holds.
    pub fn set_cache_buf(&mut self, read_buf: BinaryMut, write_buf: BinaryMut)
        ensures
            final(self)@ == (CodecView {
                read: old(self)@.read + mut_bytes(read_buf),
                write: old(self)@.write + mut_bytes(write_buf),
                ..old(self)@
            }),
    {
        put_slice(&mut self.read_buf, chunk(&read_buf));
        put_slice(&mut self.write_buf, chunk(&write_buf));
    }

    /// Takes in bytes that were read from the connection.
    pub fn put(&mut self, data: &[u8])
        ensures
            final(self)@ == (CodecView { read: old(self)@.read + data@, ..old(self)@ }),
    {
        put_slice(&mut self.read_buf, data);
    }

    /// Cuts the next frame from the bytes read: its header of nine bytes and
    /// as many bytes as the header announces. `None` until the whole frame is
    /// there. A frame that announces more than `MAX_FRAME_LEN` bytes is an
    /// error, and the bytes stay where they are.
    pub fn poll_next(&mut self) -> (r: Result<Option<Vec<u8>>, ProtError>)
        ensures
            if frame_too_long(old(self)@.read) {
                r == Err::<Option<Vec<u8>>, ProtError>(ProtError::Io) && final(self)@ == old(self)@
            } else {
                match frame_len(old(self)@.read) {
                    Some(len) => r is Ok && r->Ok_0 is Some && r->Ok_0->0@ == old(self)@.read.take(
                        len,
                    ) && final(self)@ == (CodecView {
                        read: old(self)@.read.skip(len),
                        ..old(self)@
                    }),
                    None => r == Ok::<Option<Vec<u8>>, ProtError>(None) && final(self)@ == old(
                        self,
                    )@,
                }
            },
    {
        let have = remaining(&self.read_buf);
        if have < 3 {
            return Ok(None);
        }
        let buf = chunk(&self.read_buf);
        let len: usize = (buf[0] as usize) * 65536 + (buf[1] as usize) * 256 + (buf[2] as usize);
        if len > MAX_FRAME_LEN {
            return Err(ProtError::Io);
        }
        if have < FRAME_HEADER_LEN || have - FRAME_HEADER_LEN < len {
            return Ok(None);
        }
        let total = FRAME_HEADER_LEN + len;
        let frame = vstd::slice::slice_to_vec(vstd::slice::slice_subrange(buf, 0, total));
        advance(&mut self.read_buf, total);
        Ok(Some(frame))
    }

    /// Looks for the connection preface at the front of the bytes read, once
    /// they are as many as the preface, and takes it from them if it is
    /// there. `None` while fewer bytes are there.
    pub fn take_preface(&mut self) -> (r: Option<bool>)
        ensures
            r == if old(self)@.read.len() < crate::consts::MAGIC_LEN {
                None
            } else {
                Some(crate::http1::io::starts_with_magic(old(self)@.read))
            },
            final(self)@ == if r == Some(true) {
                CodecView {
                    read: old(self)@.read.skip(crate::consts::MAGIC_LEN as int),
                    ..old(self)@
                }
            } else {
                old(self)@
            },
    {
        if remaining(&self.read_buf) < crate::consts::MAGIC_LEN {
            return None;
        }
        if crate::http1::io::is_http2_magic(chunk(&self.read_buf)) {
            advance(&mut self.read_buf, crate::consts::MAGIC_LEN);
            Some(true)
        } else {
            Some(false)
        }
    }
}

} // verus!
