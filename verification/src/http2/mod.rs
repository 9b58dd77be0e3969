//! HTTP/2: frames, the streams of a connection, and the control that
//! multiplexes them.

pub mod codec;
pub mod control;
pub mod frame;
pub mod inner_stream;
pub mod priority_queue;
pub mod send_response;
pub mod state;
