//! The errors of the engine.

use vstd::prelude::*;

verus! {

/// Who ended an HTTP/2 connection.
#[derive(Debug, Clone, Copy, PartialEq, Eq, Structural)]
pub enum Initiator {
    /// This endpoint.
    Library,
    /// The peer.
    Remote,
}

/// What can go wrong on a connection or in one of its messages.
#[derive(Debug, Clone, PartialEq, Eq)]
pub enum ProtError {
    /// A malformed HTTP/1.1 message or HTTP/2 frame.
    Parse,
    /// Frames in an order that HTTP/2 does not allow.
    ProtocolViolation,
    /// The connection is to go on as HTTP/2; the bytes are those read behind
    /// the connection preface.
    ServerUpgradeHttp2(Vec<u8>),
    /// The client is to go on as HTTP/2.
    ClientUpgradeHttp2,
    /// The peer sent more than its window allowed.
    FlowControl,
    /// A body names a content coding that the engine does not know.
    UnknownCompress,
    /// Compressed input that its coder cannot read, or a coder that failed to
    /// write.
    Compression,
    /// The transport failed.
    Io,
    /// The connection was ended with a GOAWAY frame that holds this reason.
    GoAway(u32, Initiator),
    /// The engine was used in a way it is not made for.
    Extension(ExtensionKind),
}

/// The ways in which the engine can be misused.
#[derive(Debug, Clone, Copy, PartialEq, Eq, Structural)]
pub enum ExtensionKind {
    /// The reader of a body went away while the connection was feeding it.
    SenderError,
    /// A file range that ends before it starts.
    RangeOrder,
}

pub type ProtResult<T> = Result<T, ProtError>;

impl ProtError {
    /// The error of a connection that this endpoint ends for `reason`.
    pub fn library_go_away(reason: u32) -> (e: ProtError)
        ensures
            e == ProtError::GoAway(reason, Initiator::Library),
    {
        ProtError::GoAway(reason, Initiator::Library)
    }

    /// The text of each error.
    pub open spec fn text(self) -> Seq<char> {
        match self {
            ProtError::Parse => "malformed message"@,
            ProtError::ProtocolViolation => "protocol violation"@,
            ProtError::ServerUpgradeHttp2(_) => "upgrade to http2"@,
            ProtError::ClientUpgradeHttp2 => "client upgrade to http2"@,
            ProtError::FlowControl => "flow control violated"@,
            ProtError::UnknownCompress => "unknown content coding"@,
            ProtError::Compression => "compression failed"@,
            ProtError::Io => "transport failed"@,
            ProtError::GoAway(_, _) => "connection ended by goaway"@,
            ProtError::Extension(ExtensionKind::SenderError) => "sender error"@,
            ProtError::Extension(ExtensionKind::RangeOrder) => "range ends before it starts"@,
        }
    }

    /// A short text for the error.
    pub fn message(&self) -> (s: &'static str)
        ensures
            s@ == self.text(),
    {
        match self {
            ProtError::Parse => "malformed message",
            ProtError::ProtocolViolation => "protocol violation",
            ProtError::ServerUpgradeHttp2(_) => "upgrade to http2",
            ProtError::ClientUpgradeHttp2 => "client upgrade to http2",
            ProtError::FlowControl => "flow control violated",
            ProtError::UnknownCompress => "unknown content coding",
            ProtError::Compression => "compression failed",
            ProtError::Io => "transport failed",
            ProtError::GoAway(_, _) => "connection ended by goaway",
            ProtError::Extension(ExtensionKind::SenderError) => "sender error",
            ProtError::Extension(ExtensionKind::RangeOrder) => "range ends before it starts",
        }
    }
}

} // verus!
