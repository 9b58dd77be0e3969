//! Where a body's bytes come from.

use vstd::prelude::*;
use crate::consts::READ_CHUNK_SIZE;
use crate::error::{ExtensionKind, ProtError};

verus! {

/// The kind of source behind a body.
#[derive(Debug, Clone, Copy, PartialEq, Eq, Structural)]
pub enum SourceKind {
    /// Nothing but the bytes the body was made with.
    Memory,
    /// A channel that yields chunks, each with a flag that tells the last.
    Channel,
    /// An open file.
    File,
}

/// What the channel that feeds a body says when it is asked for room.
#[derive(Debug, Clone, Copy, PartialEq, Eq, Structural)]
pub enum Channel {
    /// It has room for a message.
    Room,
    /// It is full; its reader is still there.
    Full,
    /// Its reader is gone.
    Closed,
}

/// What the body knows of its source. The channel or the file itself is held
/// by whoever polls it; each read of the file is reported with
/// [`InnerReceiver::file_read`].
#[derive(Debug, Clone, Copy, PartialEq, Eq, Structural)]
pub struct InnerReceiver {
    /// The kind of source.
    pub kind: SourceKind,
    /// The size of the buffer that the source is read into.
    pub cache_len: usize,
    /// The bytes of a file that are still to be delivered.
    pub data_size: u64,
    /// Where in the file the body starts, if a range was set.
    pub start_pos: Option<u64>,
    /// Where in the file the body ends, if a range was set.
    pub end_pos: Option<u64>,
}

/// The smaller of two numbers.
pub open spec fn min(a: int, b: int) -> int {
    if a <= b {
        a
    } else {
        b
    }
}

impl InnerReceiver {
    /// No source.
    pub open spec fn new_spec() -> InnerReceiver {
        InnerReceiver {
            kind: SourceKind::Memory,
            cache_len: 0,
            data_size: u64::MAX,
            start_pos: None,
            end_pos: None,
        }
    }

    /// A channel.
    pub open spec fn new_receiver_spec() -> InnerReceiver {
        InnerReceiver {
            kind: SourceKind::Channel,
            cache_len: READ_CHUNK_SIZE,
            data_size: u64::MAX,
            start_pos: None,
            end_pos: None,
        }
    }

    /// A file of which `data_size` bytes are to be delivered.
    pub open spec fn new_file_spec(data_size: u64) -> InnerReceiver {
        InnerReceiver {
            kind: SourceKind::File,
            cache_len: READ_CHUNK_SIZE,
            data_size,
            start_pos: None,
            end_pos: None,
        }
    }

    /// No source.
    pub fn new() -> (r: Self)
        ensures
            r == Self::new_spec(),
    {
        InnerReceiver {
            kind: SourceKind::Memory,
            cache_len: 0,
            data_size: u64::MAX,
            start_pos: None,
            end_pos: None,
        }
    }

    /// A channel.
    pub fn new_receiver() -> (r: Self)
        ensures
            r == Self::new_receiver_spec(),
    {
        InnerReceiver {
            kind: SourceKind::Channel,
            cache_len: READ_CHUNK_SIZE,
            data_size: u64::MAX,
            start_pos: None,
            end_pos: None,
        }
    }

    /// A file of which `data_size` bytes are to be delivered.
    pub fn new_file(data_size: u64) -> (r: Self)
        ensures
            r == Self::new_file_spec(data_size),
    {
        InnerReceiver {
            kind: SourceKind::File,
            cache_len: READ_CHUNK_SIZE,
            data_size,
            start_pos: None,
            end_pos: None,
        }
    }

    /// Limits the body to the bytes from `start_pos` up to `end_pos` of the
    /// file. A range that ends before it starts is refused and changes
    /// nothing. The file itself is to be moved to `start_pos` by its holder.
    pub fn set_start_end(&mut self, start_pos: u64, end_pos: u64) -> (r: Result<(), ProtError>)
        ensures
            end_pos >= start_pos ==> r is Ok && *final(self) == (InnerReceiver {
                start_pos: Some(start_pos),
                end_pos: Some(end_pos),
                data_size: (end_pos - start_pos) as u64,
                ..*old(self)
            }),
            end_pos < start_pos ==> r == Err::<(), ProtError>(
                ProtError::Extension(ExtensionKind::RangeOrder),
            ) && *final(self) == *old(self),
    {
        if end_pos < start_pos {
            return Err(ProtError::Extension(ExtensionKind::RangeOrder));
        }
        self.start_pos = Some(start_pos);
        self.end_pos = Some(end_pos);
        self.data_size = end_pos - start_pos;
        Ok(())
    }

    /// Whether there is neither a channel nor a file.
    pub fn is_none(&self) -> (r: bool)
        ensures
            r == (self.kind == SourceKind::Memory),
    {
        match self.kind {
            SourceKind::Memory => true,
            _ => false,
        }
    }

    /// Accounts for a read of the file that filled `size` bytes of the buffer.
    /// Returns whether the body ends with this read, and how many of the bytes
    /// read belong to the body: no more than are still to be delivered. The
    /// body ends when the buffer was not filled or when nothing is left to
    /// deliver after this read.
    pub fn file_read(&mut self, size: usize) -> (r: (bool, usize))
        ensures
            r.0 == (size < old(self).cache_len || old(self).data_size <= size),
            r.1 == min(old(self).data_size as int, size as int),
            *final(self) == (InnerReceiver {
                data_size: (old(self).data_size - r.1) as u64,
                ..*old(self)
            }),
    {
        let is_end = size < self.cache_len || self.data_size <= size as u64;
        let read: usize = if self.data_size < size as u64 {
            self.data_size as usize
        } else {
            size
        };
        self.data_size = self.data_size - read as u64;
        (is_end, read)
    }
}

} // verus!
