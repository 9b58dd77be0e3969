//! The frames of HTTP/2, by what the engine reads in them. Their form on the
//! wire, with the compression of headers, is not this module's business.

use vstd::prelude::*;
use crate::header::{list_view, HeaderList, HeaderSeq};

verus! {

/// The number of a stream; zero stands for the connection.
pub type StreamIdentifier = u32;

/// The reason `NO_ERROR`.
pub const NO_ERROR: u32 = 0;

/// The reason `PROTOCOL_ERROR`.
pub const PROTOCOL_ERROR: u32 = 1;

/// The reason `FLOW_CONTROL_ERROR`.
pub const FLOW_CONTROL_ERROR: u32 = 3;

/// The kinds of frames.
#[derive(Debug, Clone, Copy, PartialEq, Eq, Structural)]
pub enum Kind {
    Data,
    Headers,
    Priority,
    Reset,
    Settings,
    PushPromise,
    Ping,
    GoAway,
    WindowUpdate,
    Continuation,
}

/// The flags of a frame that the engine reads.
#[derive(Debug, Clone, Copy, PartialEq, Eq, Structural)]
pub struct Flag {
    /// The frame is the last of its stream.
    pub end_stream: bool,
    /// The frame ends a block of headers.
    pub end_headers: bool,
    /// The frame acknowledges one of the same kind.
    pub ack: bool,
}

impl Flag {
    pub open spec fn zero_spec() -> Flag {
        Flag { end_stream: false, end_headers: false, ack: false }
    }

    /// No flag.
    pub fn zero() -> (f: Flag)
        ensures
            f == Flag::zero_spec(),
    {
        Flag { end_stream: false, end_headers: false, ack: false }
    }

    /// The flag that ends a stream.
    pub fn end_stream() -> (f: Flag)
        ensures
            f == (Flag { end_stream: true, ..Flag::zero_spec() }),
    {
        Flag { end_stream: true, end_headers: false, ack: false }
    }

    /// The flag that ends a block of headers.
    pub fn end_headers() -> (f: Flag)
        ensures
            f == (Flag { end_headers: true, ..Flag::zero_spec() }),
    {
        Flag { end_stream: false, end_headers: true, ack: false }
    }
}

/// What stands in front of every frame.
#[derive(Debug, Clone, Copy, PartialEq, Eq, Structural)]
pub struct FrameHeader {
    pub kind: Kind,
    pub flag: Flag,
    pub id: StreamIdentifier,
}

impl FrameHeader {
    pub fn new(kind: Kind, flag: Flag, id: StreamIdentifier) -> (h: FrameHeader)
        ensures
            h == (FrameHeader { kind, flag, id }),
    {
        FrameHeader { kind, flag, id }
    }
}

/// The settings that an endpoint declares; `None` where it declares none.
#[derive(Debug, Clone, Copy, PartialEq, Eq, Structural)]
pub struct Settings {
    pub is_ack: bool,
    pub header_table_size: Option<u32>,
    pub enable_push: Option<bool>,
    pub max_concurrent_streams: Option<u32>,
    pub initial_window_size: Option<u32>,
    pub max_frame_size: Option<u32>,
    pub max_header_list_size: Option<u32>,
}

impl Settings {
    /// Settings that declare nothing.
    pub open spec fn empty() -> Settings {
        Settings {
            is_ack: false,
            header_table_size: None,
            enable_push: None,
            max_concurrent_streams: None,
            initial_window_size: None,
            max_frame_size: None,
            max_header_list_size: None,
        }
    }

    /// The acknowledgement of settings.
    pub open spec fn ack_spec() -> Settings {
        Settings { is_ack: true, ..Settings::empty() }
    }

    /// The acknowledgement of settings.
    pub fn ack() -> (s: Settings)
        ensures
            s == Settings::ack_spec(),
    {
        Settings {
            is_ack: true,
            header_table_size: None,
            enable_push: None,
            max_concurrent_streams: None,
            initial_window_size: None,
            max_frame_size: None,
            max_header_list_size: None,
        }
    }

    /// The window that the settings declare for a new stream.
    pub fn initial_window_size(&self) -> (w: Option<u32>)
        ensures
            w == self.initial_window_size,
    {
        self.initial_window_size
    }
}

impl Default for Settings {
    fn default() -> (s: Settings)
        ensures
            s == Settings::empty(),
    {
        Settings {
            is_ack: false,
            header_table_size: None,
            enable_push: None,
            max_concurrent_streams: None,
            initial_window_size: None,
            max_frame_size: None,
            max_header_list_size: None,
        }
    }
}

/// A frame.
#[allow(inconsistent_fields)]
pub enum Frame {
    /// Bytes of a body.
    Data { header: FrameHeader, payload: Vec<u8> },
    /// The fields of a head, pseudo-headers included.
    Headers { header: FrameHeader, fields: HeaderList },
    /// The weight of a stream and the stream it depends on.
    Priority { header: FrameHeader, dependency: StreamIdentifier, weight: u8, exclusive: bool },
    /// The promise of a stream, with the fields of the request it answers.
    PushPromise { header: FrameHeader, promised_id: StreamIdentifier, fields: HeaderList },
    /// A ping or its answer.
    Ping { header: FrameHeader, payload: u64 },
    /// The end of the connection.
    GoAway { header: FrameHeader, last_stream_id: StreamIdentifier, reason: u32, debug: Vec<u8> },
    /// More room in a window.
    WindowUpdate { header: FrameHeader, increment: u32 },
    /// The end of a stream, for a reason.
    Reset { header: FrameHeader, reason: u32 },
    /// Settings or their acknowledgement.
    Settings { header: FrameHeader, settings: Settings },
    /// More fields of the head that the frame before began.
    Continuation { header: FrameHeader, fields: HeaderList },
}

/// A frame by its bytes.
#[allow(inconsistent_fields)]
pub enum FrameView {
    Data { header: FrameHeader, payload: Seq<u8> },
    Headers { header: FrameHeader, fields: HeaderSeq },
    Priority { header: FrameHeader, dependency: StreamIdentifier, weight: u8, exclusive: bool },
    PushPromise { header: FrameHeader, promised_id: StreamIdentifier, fields: HeaderSeq },
    Ping { header: FrameHeader, payload: u64 },
    GoAway { header: FrameHeader, last_stream_id: StreamIdentifier, reason: u32, debug: Seq<u8> },
    WindowUpdate { header: FrameHeader, increment: u32 },
    Reset { header: FrameHeader, reason: u32 },
    Settings { header: FrameHeader, settings: Settings },
    Continuation { header: FrameHeader, fields: HeaderSeq },
}

impl View for Frame {
    type V = FrameView;

    open spec fn view(&self) -> FrameView {
        match *self {
            Frame::Data { header, payload } => FrameView::Data { header, payload: payload@ },
            Frame::Headers { header, fields } => FrameView::Headers {
                header,
                fields: list_view(fields@),
            },
            Frame::Priority { header, dependency, weight, exclusive } => FrameView::Priority {
                header,
                dependency,
                weight,
                exclusive,
            },
            Frame::PushPromise { header, promised_id, fields } => FrameView::PushPromise {
                header,
                promised_id,
                fields: list_view(fields@),
            },
            Frame::Ping { header, payload } => FrameView::Ping { header, payload },
            Frame::GoAway { header, last_stream_id, reason, debug } => FrameView::GoAway {
                header,
                last_stream_id,
                reason,
                debug: debug@,
            },
            Frame::WindowUpdate { header, increment } => FrameView::WindowUpdate {
                header,
                increment,
            },
            Frame::Reset { header, reason } => FrameView::Reset { header, reason },
            Frame::Settings { header, settings } => FrameView::Settings { header, settings },
            Frame::Continuation { header, fields } => FrameView::Continuation {
                header,
                fields: list_view(fields@),
            },
        }
    }
}

impl FrameView {
    /// What stands in front of the frame.
    pub open spec fn header(self) -> FrameHeader {
        match self {
            FrameView::Data { header, .. } => header,
            FrameView::Headers { header, .. } => header,
            FrameView::Priority { header, .. } => header,
            FrameView::PushPromise { header, .. } => header,
            FrameView::Ping { header, .. } => header,
            FrameView::GoAway { header, .. } => header,
            FrameView::WindowUpdate { header, .. } => header,
            FrameView::Reset { header, .. } => header,
            FrameView::Settings { header, .. } => header,
            FrameView::Continuation { header, .. } => header,
        }
    }

    /// Whether the frame is one of those that steer the connection, which go
    /// out before the frames of any message.
    pub open spec fn is_control(self) -> bool {
        !(self is Data || self is Headers || self is PushPromise || self is Continuation)
    }

    /// Whether the frame begins a block of headers that it does not end, so
    /// that its continuation must follow at once.
    pub open spec fn opens_block(self) -> bool {
        (self is Headers || self is PushPromise || self is Continuation)
            && !self.header().flag.end_headers
    }

    /// The bytes of a body that the frame holds; none in any other frame.
    pub open spec fn payload(self) -> Seq<u8> {
        match self {
            FrameView::Data { payload, .. } => payload,
            _ => Seq::empty(),
        }
    }
}

impl Frame {
    /// What stands in front of the frame.
    pub fn header(&self) -> (h: FrameHeader)
        ensures
            h == self@.header(),
    {
        match self {
            Frame::Data { header, .. } => *header,
            Frame::Headers { header, .. } => *header,
            Frame::Priority { header, .. } => *header,
            Frame::PushPromise { header, .. } => *header,
            Frame::Ping { header, .. } => *header,
            Frame::GoAway { header, .. } => *header,
            Frame::WindowUpdate { header, .. } => *header,
            Frame::Reset { header, .. } => *header,
            Frame::Settings { header, .. } => *header,
            Frame::Continuation { header, .. } => *header,
        }
    }

    /// The stream that the frame belongs to.
    pub fn stream_id(&self) -> (id: StreamIdentifier)
        ensures
            id == self@.header().id,
    {
        self.header().id
    }

    /// Whether the frame ends a block of headers.
    pub fn is_end_headers(&self) -> (r: bool)
        ensures
            r == self@.header().flag.end_headers,
    {
        self.header().flag.end_headers
    }

    /// Whether the frame is the last of its stream.
    pub fn is_end_stream(&self) -> (r: bool)
        ensures
            r == self@.header().flag.end_stream,
    {
        self.header().flag.end_stream
    }

    /// Whether the frame holds bytes of a body.
    pub fn is_data(&self) -> (r: bool)
        ensures
            r == (self@ is Data),
    {
        match self {
            Frame::Data { .. } => true,
            _ => false,
        }
    }

    /// Whether the frame is one of those that steer the connection.
    pub fn is_control(&self) -> (r: bool)
        ensures
            r == self@.is_control(),
    {
        match self {
            Frame::Data { .. } => false,
            Frame::Headers { .. } => false,
            Frame::PushPromise { .. } => false,
            Frame::Continuation { .. } => false,
            _ => true,
        }
    }

    /// Whether the frame goes on with the block of headers of the frame
    /// before it.
    pub fn is_continuation(&self) -> (r: bool)
        ensures
            r == (self@ is Continuation),
    {
        match self {
            Frame::Continuation { .. } => true,
            _ => false,
        }
    }

    /// Whether the frame begins a block of headers that it does not end.
    pub fn opens_block(&self) -> (r: bool)
        ensures
            r == self@.opens_block(),
    {
        match self {
            Frame::Headers { header, .. } => !header.flag.end_headers,
            Frame::PushPromise { header, .. } => !header.flag.end_headers,
            Frame::Continuation { header, .. } => !header.flag.end_headers,
            _ => false,
        }
    }

    /// The number of bytes of a body that the frame holds.
    pub fn payload_len(&self) -> (n: usize)
        ensures
            n == self@.payload().len(),
    {
        match self {
            Frame::Data { payload, .. } => payload.len(),
            _ => 0,
        }
    }
}

} // verus!
