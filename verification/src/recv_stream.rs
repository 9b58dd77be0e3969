//! The body of a message that an HTTP/2 stream receives: the bytes that have
//! arrived, and whether more will come.

use vstd::prelude::*;
use algorithm::buf::{Binary, BinaryMut};
use crate::binary::{bin_bytes, bin_chunk, chunk, mut_bytes, new_mut, put_slice};

verus! {

/// What a [`RecvStream`] holds.
pub struct RecvStreamView {
    /// Whether a channel delivers more bytes.
    pub has_receiver: bool,
    /// The bytes that have arrived.
    pub binary: Seq<u8>,
    /// Whether the last byte has arrived.
    pub is_end: bool,
}

/// What is to be done to read a stream to its end.
pub enum ReadAll {
    /// Nothing more: these are all its bytes.
    Done(BinaryMut),
    /// Nothing can be done: the stream has not ended and nothing delivers
    /// more.
    Lost,
    /// Receive from the channel and hand over what it gives.
    Receive,
}

/// The bytes received on a stream.
pub struct RecvStream {
    has_receiver: bool,
    binary: BinaryMut,
    is_end: bool,
}

impl View for RecvStream {
    type V = RecvStreamView;

    closed spec fn view(&self) -> RecvStreamView {
        RecvStreamView {
            has_receiver: self.has_receiver,
            binary: mut_bytes(self.binary),
            is_end: self.is_end,
        }
    }
}

impl RecvStream {
    /// A stream that has ended without a byte.
    pub fn empty() -> (s: RecvStream)
        ensures
            s@ == (RecvStreamView { has_receiver: false, binary: Seq::empty(), is_end: true }),
    {
        RecvStream { has_receiver: false, binary: new_mut(), is_end: true }
    }

    /// A stream with the bytes that have arrived and a channel for the rest.
    pub fn new(binary: BinaryMut, is_end: bool) -> (s: RecvStream)
        ensures
            s@ == (RecvStreamView { has_receiver: true, binary: mut_bytes(binary), is_end }),
    {
        RecvStream { has_receiver: true, binary, is_end }
    }

    /// Whether the last byte has arrived.
    pub fn is_end(&self) -> (r: bool)
        ensures
            r == self@.is_end,
    {
        self.is_end
    }

    /// A copy of the bytes that have arrived.
    fn copy(&self) -> (b: BinaryMut)
        ensures
            mut_bytes(b) == self@.binary,
    {
        let mut b = new_mut();
        put_slice(&mut b, chunk(&self.binary));
        proof {
            assert(mut_bytes(b) =~= self@.binary);
        }
        b
    }

    /// What is to be done to read the stream to its end.
    pub fn read_all(&self) -> (r: ReadAll)
        ensures
            match r {
                ReadAll::Done(b) => self@.is_end && mut_bytes(b) == self@.binary,
                ReadAll::Lost => !self@.is_end && !self@.has_receiver,
                ReadAll::Receive => !self@.is_end && self@.has_receiver,
            },
    {
        if self.is_end {
            return ReadAll::Done(self.copy());
        }
        if !self.has_receiver {
            return ReadAll::Lost;
        }
        ReadAll::Receive
    }

    /// Takes in what the channel gave. A chunk is appended and may end the
    /// stream; a closed channel delivers no more. Returns all bytes of the
    /// stream once it has ended or the channel is closed, else `None`: the
    /// channel is to be received from again.
    pub fn read_next(&mut self, received: Option<(bool, Binary)>) -> (r: Option<BinaryMut>)
        ensures
            match received {
                Some((is_end, chunk)) => final(self)@ == (RecvStreamView {
                    binary: old(self)@.binary + bin_bytes(chunk),
                    is_end,
                    ..old(self)@
                }) && (r is Some <==> is_end),
                None => final(self)@ == old(self)@ && r is Some,
            },
            r matches Some(b) ==> mut_bytes(b) == final(self)@.binary,
    {
        match received {
            Some((is_end, data)) => {
                put_slice(&mut self.binary, bin_chunk(&data));
                self.is_end = is_end;
                if is_end {
                    Some(self.copy())
                } else {
                    None
                }
            },
            None => Some(self.copy()),
        }
    }
}

} // verus!
