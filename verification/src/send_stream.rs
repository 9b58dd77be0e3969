//! The bytes that a connection has read, and the part of them that is the
//! body of the message being read.

use vstd::prelude::*;
use algorithm::buf::BinaryMut;
use crate::binary::{advance, advance_all, chunk, mut_bytes, new_mut, put_slice, remaining};
use crate::chunked::{dechunk, parse_chunk, ChunkStep, Dechunked};
use crate::error::ProtError;

verus! {

/// What a [`SendStream`] holds.
pub struct SendStreamView {
    /// The bytes read from the connection that are not looked at yet.
    pub read: Seq<u8>,
    /// The bytes of the body that are taken out of `read` but not handed on
    /// yet.
    pub body: Seq<u8>,
    /// Whether the body comes in chunks.
    pub is_chunked: bool,
    /// Whether the body has come to its end.
    pub is_end: bool,
    /// Whether the header of the message has been read, so that what follows
    /// is its body.
    pub is_end_headers: bool,
    /// The bytes of the body that are still to come; `usize::MAX` where the
    /// body goes on until the connection is closed.
    pub left: usize,
}

impl SendStreamView {
    /// The stream with no bytes and no message.
    pub open spec fn empty() -> SendStreamView {
        SendStreamView {
            read: Seq::empty(),
            body: Seq::empty(),
            is_chunked: false,
            is_end: false,
            is_end_headers: false,
            left: 0,
        }
    }

    /// How many of the bytes read belong to a body that is not chunked: all
    /// of them where the body goes on until the connection is closed, else no
    /// more than are still to come.
    pub open spec fn plain_take(self) -> int {
        if self.left == usize::MAX || self.read.len() <= self.left {
            self.read.len() as int
        } else {
            self.left as int
        }
    }

    /// The stream after the bytes read were looked at, and whether they were
    /// in order. Nothing is done before the header is read or after the body
    /// has ended. Of a chunked body the complete chunks are taken; the body
    /// ends with the last chunk; bytes that are no chunk are an error and stay
    /// where they are. Of any other body the bytes that belong to it are
    /// taken, and it ends when none is left to come.
    #[verifier::opaque]
    pub open spec fn processed(self) -> (SendStreamView, Result<(), ProtError>) {
        if self.is_end || !self.is_end_headers {
            (self, Ok(()))
        } else if self.is_chunked {
            let d = dechunk(self.read);
            (
                SendStreamView {
                    read: d.rest,
                    body: self.body + d.body,
                    is_end: d.ended,
                    ..self
                },
                if d.valid {
                    Ok(())
                } else {
                    Err(ProtError::Parse)
                },
            )
        } else {
            let n = self.plain_take();
            let left = if self.left == usize::MAX {
                usize::MAX
            } else {
                (self.left - n) as usize
            };
            (
                SendStreamView {
                    read: self.read.skip(n),
                    body: self.body + self.read.take(n),
                    left,
                    is_end: left == 0,
                    ..self
                },
                Ok(()),
            )
        }
    }
}

/// The read side of a connection.
pub struct SendStream {
    read_buf: BinaryMut,
    real_read_buf: BinaryMut,
    is_chunked: bool,
    is_end: bool,
    is_end_headers: bool,
    left_read_body_len: usize,
}

impl View for SendStream {
    type V = SendStreamView;

    closed spec fn view(&self) -> SendStreamView {
        SendStreamView {
            read: mut_bytes(self.read_buf),
            body: mut_bytes(self.real_read_buf),
            is_chunked: self.is_chunked,
            is_end: self.is_end,
            is_end_headers: self.is_end_headers,
            left: self.left_read_body_len,
        }
    }
}

impl SendStream {
    /// A stream with no bytes and no message.
    pub fn empty() -> (s: SendStream)
        ensures
            s@ == SendStreamView::empty(),
    {
        SendStream {
            read_buf: new_mut(),
            real_read_buf: new_mut(),
            is_chunked: false,
            is_end: false,
            is_end_headers: false,
            left_read_body_len: 0,
        }
    }

    /// Whether the body has come to its end.
    pub fn is_end(&self) -> (r: bool)
        ensures
            r == self@.is_end,
    {
        self.is_end
    }

    /// Sets whether the header of the message has been read.
    pub fn set_end_headers(&mut self, is_end_headers: bool)
        ensures
            final(self)@ == (SendStreamView { is_end_headers, ..old(self)@ }),
    {
        self.is_end_headers = is_end_headers;
    }

    /// Sets whether the body comes in chunks.
    pub fn set_chunked(&mut self, is_chunked: bool)
        ensures
            final(self)@ == (SendStreamView { is_chunked, ..old(self)@ }),
    {
        self.is_chunked = is_chunked;
    }

    /// Starts a new message: its body has not ended and is not chunked, and
    /// its header is not yet read.
    pub fn set_new_body(&mut self)
        ensures
            final(self)@ == (SendStreamView {
                is_end: false,
                is_chunked: false,
                is_end_headers: false,
                left: 0,
                ..old(self)@
            }),
    {
        self.is_end = false;
        self.is_chunked = false;
        self.is_end_headers = false;
        self.left_read_body_len = 0;
    }

    /// The header has been read and announces `left` bytes of body; a body of
    /// no bytes has ended.
    pub fn set_left_body(&mut self, left: usize)
        ensures
            final(self)@ == (SendStreamView {
                left,
                is_end_headers: true,
                is_end: old(self)@.is_end || left == 0,
                ..old(self)@
            }),
    {
        self.left_read_body_len = left;
        self.is_end_headers = true;
        if left == 0 {
            self.is_end = true;
        }
    }

    /// Appends bytes that were read from the connection.
    pub fn put(&mut self, data: &[u8]) -> (n: usize)
        ensures
            final(self)@ == (SendStreamView { read: old(self)@.read + data@, ..old(self)@ }),
            n == data@.len(),
    {
        put_slice(&mut self.read_buf, data)
    }

    /// The bytes read from the connection that are not looked at yet.
    pub fn unread(&self) -> (s: &[u8])
        ensures
            s@ == self@.read,
    {
        chunk(&self.read_buf)
    }

    /// The number of bytes read from the connection that are not looked at
    /// yet.
    pub fn unread_len(&self) -> (n: usize)
        ensures
            n == self@.read.len(),
    {
        remaining(&self.read_buf)
    }

    /// Drops the first `n` of the bytes that are not looked at yet.
    pub fn consume(&mut self, n: usize)
        requires
            n <= old(self)@.read.len(),
        ensures
            final(self)@ == (SendStreamView { read: old(self)@.read.skip(n as int), ..old(self)@ }),
    {
        advance(&mut self.read_buf, n);
    }

    /// Takes the unread bytes out of the stream.
    pub fn take_unread(&mut self) -> (v: Vec<u8>)
        ensures
            v@ == old(self)@.read,
            final(self)@ == (SendStreamView { read: Seq::empty(), ..old(self)@ }),
    {
        let v = vstd::slice::slice_to_vec(chunk(&self.read_buf));
        advance_all(&mut self.read_buf);
        v
    }

    /// Looks at the bytes read and takes out of them what belongs to the body
    /// of the message.
    pub fn process_data(&mut self) -> (r: Result<(), ProtError>)
        ensures
            final(self)@ == old(self)@.processed().0,
            r == old(self)@.processed().1,
    {
        reveal(SendStreamView::processed);
        if self.is_end || !self.is_end_headers {
            return Ok(());
        }
        if self.is_chunked {
            let ghost taken = Seq::<u8>::empty();
            proof {
                assert(mut_bytes(self.real_read_buf) =~= old(self)@.body + taken);
            }
            loop
                invariant
                    old(self)@.is_chunked,
                    old(self)@.is_end_headers,
                    !old(self)@.is_end,
                    self.is_chunked == old(self).is_chunked,
                    self.is_end_headers == old(self).is_end_headers,
                    self.left_read_body_len == old(self).left_read_body_len,
                    !self.is_end,
                    mut_bytes(self.real_read_buf) == old(self)@.body + taken,
                    dechunk(old(self)@.read) == (Dechunked {
                        body: taken + dechunk(mut_bytes(self.read_buf)).body,
                        ..dechunk(mut_bytes(self.read_buf))
                    }),
                decreases mut_bytes(self.read_buf).len(),
            {
                let ghost before = mut_bytes(self.read_buf);
                reveal(SendStreamView::processed);
                let have = remaining(&self.read_buf);
                let step = parse_chunk(chunk(&self.read_buf));
                match step {
                    ChunkStep::Partial => {
                        proof {
                            assert(taken + Seq::<u8>::empty() =~= taken);
                        }
                        return Ok(());
                    },
                    ChunkStep::Invalid => {
                        proof {
                            assert(taken + Seq::<u8>::empty() =~= taken);
                        }
                        return Err(ProtError::Parse);
                    },
                    ChunkStep::Last { used } => {
                        advance(&mut self.read_buf, used);
                        self.is_end = true;
                        proof {
                            assert(taken + Seq::<u8>::empty() =~= taken);
                        }
                        return Ok(());
                    },
                    ChunkStep::Data { head, size } => {
                        advance(&mut self.read_buf, head);
                        let data = vstd::slice::slice_subrange(chunk(&self.read_buf), 0, size);
                        put_slice(&mut self.real_read_buf, data);
                        advance(&mut self.read_buf, size + 2);
                        proof {
                            assert(data@ =~= before.subrange(head as int, head + size));
                            assert(mut_bytes(self.read_buf) =~= before.skip(head + size + 2));
                            let rest = dechunk(mut_bytes(self.read_buf));
                            assert(taken + (data@ + rest.body) =~= (taken + data@) + rest.body);
                            assert(mut_bytes(self.real_read_buf) =~= old(self)@.body + (taken
                                + data@));
                            taken = taken + data@;
                        }
                    },
                }
            }
        } else {
            let have = remaining(&self.read_buf);
            let n = if self.left_read_body_len == usize::MAX || have <= self.left_read_body_len {
                have
            } else {
                self.left_read_body_len
            };
            let data = vstd::slice::slice_subrange(chunk(&self.read_buf), 0, n);
            put_slice(&mut self.real_read_buf, data);
            advance(&mut self.read_buf, n);
            if self.left_read_body_len != usize::MAX {
                self.left_read_body_len = self.left_read_body_len - n;
            }
            if self.left_read_body_len == 0 {
                self.is_end = true;
            }
            proof {
                assert(data@ =~= old(self)@.read.take(n as int));
            }
            Ok(())
        }
    }

    /// Looks at the bytes read, then moves the bytes of the body that were
    /// taken out of them behind the bytes of `read_data`. Returns the number
    /// of bytes moved, also where the bytes read were not in order: what was
    /// a body before them is still handed on.
    pub fn read_data(&mut self, read_data: &mut BinaryMut) -> (r: Result<usize, ProtError>)
        ensures
            final(self)@ == (SendStreamView { body: Seq::empty(), ..old(self)@.processed().0 }),
            mut_bytes(*final(read_data)) == mut_bytes(*old(read_data)) + old(
                self,
            )@.processed().0.body,
            r == match old(self)@.processed().1 {
                Ok(_) => Ok::<usize, ProtError>(old(self)@.processed().0.body.len() as usize),
                Err(e) => Err::<usize, ProtError>(e),
            },
    {
        let res = self.process_data();
        let size = put_slice(read_data, chunk(&self.real_read_buf));
        advance_all(&mut self.real_read_buf);
        match res {
            Ok(_) => Ok(size),
            Err(e) => Err(e),
        }
    }

    /// Looks at the bytes read, then takes the bytes of the body that were
    /// taken out of them; after an error they are dropped.
    pub fn take_data(&mut self) -> (r: Result<BinaryMut, ProtError>)
        ensures
            final(self)@ == (SendStreamView { body: Seq::empty(), ..old(self)@.processed().0 }),
            match r {
                Ok(data) => old(self)@.processed().1 is Ok && mut_bytes(data) == old(
                    self,
                )@.processed().0.body,
                Err(e) => old(self)@.processed().1 == Err::<(), ProtError>(e),
            },
    {
        let mut data = new_mut();
        let res = self.read_data(&mut data);
        proof {
            assert(mut_bytes(data) =~= old(self)@.processed().0.body);
        }
        match res {
            Ok(_) => Ok(data),
            Err(e) => Err(e),
        }
    }
}

} // verus!
