//! Protocol engine of an HTTP/1.1 and HTTP/2 endpoint: the streaming message
//! body, the HTTP/1.1 connection state machine and the HTTP/2 stream control,
//! with their behaviour stated as contracts.
//!
//! The engine does no I/O. Whoever holds the socket, the channels and the
//! files hands over what they give and takes what is to be given to them.

pub mod binary;
pub mod body;
pub mod chunked;
pub mod clock;
pub mod codec;
pub mod coders;
pub mod consts;
pub mod error;
pub mod header;
pub mod http1;
pub mod http2;
pub mod layer;
pub mod message;
pub mod middle;
pub mod recv_stream;
pub mod send_stream;

pub use body::Body;
pub use error::{Initiator, ProtError, ProtResult};
pub use http1::io::{IoBuffer, RecvRequest, RecvResponse};
pub use http2::codec::Codec;
pub use http2::control::{Control, ControlConfig};
pub use http2::send_response::{SendControl, SendRequest, SendResponse};
pub use layer::RateLimitLayer;
pub use message::{Request, Response};
pub use middle::Middleware;
pub use recv_stream::RecvStream;
pub use send_stream::SendStream;
