//! What a user of the engine can put between a connection and its handler.

use vstd::prelude::*;
use crate::error::{ProtError, ProtResult};
use crate::http1::io::{RecvRequest, RecvResponse};

verus! {

/// A step that every request passes before it reaches the handler, and every
/// response before it is sent.
pub trait Middleware {
    /// Looks at a request, and may change it. A response that is returned
    /// answers the request at once: the handler is not asked.
    fn process_request(&mut self, request: &mut RecvRequest) -> ProtResult<Option<RecvResponse>>;

    /// Looks at the response to a request, and may change it.
    fn process_response(
        &mut self,
        request: &mut RecvRequest,
        response: &mut RecvResponse,
    ) -> ProtResult<()>;

    /// Is told of an error on the connection. Does nothing unless it is
    /// given something to do.
    fn process_error(&mut self, _request: Option<&RecvRequest>, _error: &ProtError) {
    }
}

} // verus!
