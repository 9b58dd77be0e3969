//! Constants of the engine.

use vstd::prelude::*;

verus! {

/// The body is not compressed.
pub const COMPRESS_METHOD_NONE: i8 = 0;

/// The body is a gzip stream.
pub const COMPRESS_METHOD_GZIP: i8 = 1;

/// The body is a raw deflate stream.
pub const COMPRESS_METHOD_DEFLATE: i8 = 2;

/// The body is a brotli stream.
pub const COMPRESS_METHOD_BROTLI: i8 = 3;

/// The high-water mark of a body's read buffer unless another is set: 10 MiB.
pub const DEFAULT_MAX_READ_BUF: usize = 10_485_760;

/// The size of the buffer that a body reads a file or a decoder into.
pub const READ_CHUNK_SIZE: usize = 4096;

/// The largest DATA payload sent in one frame unless the peer changes it.
pub const DEFAULT_MAX_FRAME_SIZE: usize = 16_384;

/// The size of the header compression table unless the peer changes it.
pub const DEFAULT_SETTINGS_HEADER_TABLE_SIZE: usize = 4_096;

/// The flow-control window of a stream whose peer declared none.
pub const DEFAULT_INITIAL_WINDOW_SIZE: u32 = 65_535;

/// The length of the HTTP/2 connection preface.
pub const MAGIC_LEN: usize = 24;

/// Whether `method` is one of the three codings that the engine can apply.
pub open spec fn is_coding(method: i8) -> bool {
    method == COMPRESS_METHOD_GZIP || method == COMPRESS_METHOD_DEFLATE || method
        == COMPRESS_METHOD_BROTLI
}

} // verus!
