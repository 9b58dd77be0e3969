//! The HTTP/1.1 connection.

pub mod io;
