//! Requests and responses as the engine holds them, and the HTTP/1.1 head of
//! each on the wire, which `webparse` reads and writes.

use vstd::prelude::*;
use algorithm::buf::BinaryMut;
use webparse::{
    HeaderName, HeaderValue, Method, Request as WireRequest, Response as WireResponse, StatusCode,
    Version,
};
use crate::header::{list_view, HeaderList, HeaderSeq};

verus! {

/// The request line and the headers of a request.
pub struct RequestHead {
    /// The version, as it stands in the request line: `HTTP/1.1`.
    pub version: Vec<u8>,
    /// The method, in upper case.
    pub method: Vec<u8>,
    /// The path.
    pub path: Vec<u8>,
    /// The headers, in order.
    pub headers: HeaderList,
}

/// The status line and the headers of a response.
pub struct ResponseHead {
    /// The version, as it stands in the status line: `HTTP/1.1`.
    pub version: Vec<u8>,
    /// The status code.
    pub status: u16,
    /// The headers, in order.
    pub headers: HeaderList,
}

/// A request head by its bytes.
pub struct RequestHeadView {
    pub version: Seq<u8>,
    pub method: Seq<u8>,
    pub path: Seq<u8>,
    pub headers: HeaderSeq,
}

/// A response head by its bytes.
pub struct ResponseHeadView {
    pub version: Seq<u8>,
    pub status: u16,
    pub headers: HeaderSeq,
}

impl View for RequestHead {
    type V = RequestHeadView;

    open spec fn view(&self) -> RequestHeadView {
        RequestHeadView {
            version: self.version@,
            method: self.method@,
            path: self.path@,
            headers: list_view(self.headers@),
        }
    }
}

impl View for ResponseHead {
    type V = ResponseHeadView;

    open spec fn view(&self) -> ResponseHeadView {
        ResponseHeadView {
            version: self.version@,
            status: self.status,
            headers: list_view(self.headers@),
        }
    }
}

/// What the parser says of a request head beyond its parts.
#[derive(Debug, Clone, Copy, PartialEq, Eq, Structural)]
pub struct RequestFacts {
    /// The number of bytes that the head took.
    pub len: usize,
    /// Whether the parser holds the head for incomplete.
    pub is_partial: bool,
    /// Whether the method is one without a body.
    pub is_nobody: bool,
}

/// What the parser says of a response head beyond its parts.
#[derive(Debug, Clone, Copy, PartialEq, Eq, Structural)]
pub struct ResponseFacts {
    /// The number of bytes that the head took.
    pub len: usize,
    /// Whether the parser holds the head for incomplete.
    pub is_partial: bool,
}

/// What the parser made of the front of a buffer.
pub enum ParsedRequest {
    /// The front of a head, of which more has to arrive.
    Partial,
    /// No head.
    Invalid,
    /// A head.
    Complete(RequestHead, RequestFacts),
}

/// What the parser made of the front of a buffer.
pub enum ParsedResponse {
    /// The front of a head, of which more has to arrive.
    Partial,
    /// No head.
    Invalid,
    /// A head.
    Complete(ResponseHead, ResponseFacts),
}

/// A parsed request by its bytes.
pub enum ParsedRequestView {
    Partial,
    Invalid,
    Complete(RequestHeadView, RequestFacts),
}

/// A parsed response by its bytes.
pub enum ParsedResponseView {
    Partial,
    Invalid,
    Complete(ResponseHeadView, ResponseFacts),
}

impl View for ParsedRequest {
    type V = ParsedRequestView;

    open spec fn view(&self) -> ParsedRequestView {
        match *self {
            ParsedRequest::Partial => ParsedRequestView::Partial,
            ParsedRequest::Invalid => ParsedRequestView::Invalid,
            ParsedRequest::Complete(head, facts) => ParsedRequestView::Complete(head@, facts),
        }
    }
}

impl View for ParsedResponse {
    type V = ParsedResponseView;

    open spec fn view(&self) -> ParsedResponseView {
        match *self {
            ParsedResponse::Partial => ParsedResponseView::Partial,
            ParsedResponse::Invalid => ParsedResponseView::Invalid,
            ParsedResponse::Complete(head, facts) => ParsedResponseView::Complete(head@, facts),
        }
    }
}

/// What `webparse` makes of `buf` as the head of a request.
pub uninterp spec fn request_parsed(buf: Seq<u8>) -> ParsedRequestView;

/// What `webparse` makes of `buf` as the head of a response.
pub uninterp spec fn response_parsed(buf: Seq<u8>) -> ParsedResponseView;

/// The request line and the headers as `webparse` writes them, or `None`
/// where it refuses the version, the method or a header.
pub uninterp spec fn request_head_bytes(
    version: Seq<u8>,
    method: Seq<u8>,
    path: Seq<u8>,
    headers: HeaderSeq,
) -> Option<Seq<u8>>;

/// The status line and the headers as `webparse` writes them, or `None`
/// where it refuses the version, the status or a header.
pub uninterp spec fn response_head_bytes(
    version: Seq<u8>,
    status: u16,
    headers: HeaderSeq,
) -> Option<Seq<u8>>;

/// `Request::parse` on a fresh request, and what the request then says of
/// its version, method, path, headers and state. The outcome is the named
/// one. A head never takes more bytes than the buffer holds. The length that
/// the headers declare is not asked of the request: it is read from the
/// headers by [`crate::header::declared_len`].
#[verifier::external_body]
pub(crate) fn parse_request(buf: &[u8]) -> (r: ParsedRequest)
    ensures
        r@ == request_parsed(buf@),
        r matches ParsedRequest::Complete(_, facts) ==> facts.len <= buf@.len(),
{
    let mut req = WireRequest::new();
    match req.parse(buf) {
        Err(e) if e.is_partial() => ParsedRequest::Partial,
        Err(_) => ParsedRequest::Invalid,
        Ok(len) => ParsedRequest::Complete(
            RequestHead {
                version: req.version().as_str().as_bytes().to_vec(),
                method: req.method().as_str().as_bytes().to_vec(),
                path: req.path().as_bytes().to_vec(),
                headers: req.headers().iter().map(|h| (h.0.as_bytes().to_vec(), h.1.as_bytes().to_vec())).collect(),
            },
            RequestFacts { len, is_partial: req.is_partial(), is_nobody: req.method().is_nobody() },
        ),
    }
}

/// `Response::parse` on a fresh response, and what the response then says of
/// its version, status, headers and state. The outcome is the named one. A
/// head never takes more bytes than the buffer holds. The length that the
/// headers declare is not asked of the response: it is read from the headers
/// by [`crate::header::declared_len`].
#[verifier::external_body]
pub(crate) fn parse_response(buf: &[u8]) -> (r: ParsedResponse)
    ensures
        r@ == response_parsed(buf@),
        r matches ParsedResponse::Complete(_, facts) ==> facts.len <= buf@.len(),
{
    let mut res = WireResponse::new(());
    match res.parse(buf) {
        Err(e) if e.is_partial() => ParsedResponse::Partial,
        Err(_) => ParsedResponse::Invalid,
        Ok(len) => ParsedResponse::Complete(
            ResponseHead {
                version: res.version().as_str().as_bytes().to_vec(),
                status: res.status().as_u16(),
                headers: res.headers().iter().map(|h| (h.0.as_bytes().to_vec(), h.1.as_bytes().to_vec())).collect(),
            },
            ResponseFacts { len, is_partial: res.is_partial() },
        ),
    }
}

/// `Request::encode_header` on a request with this version, method, path and
/// headers: the named bytes.
#[verifier::external_body]
pub(crate) fn encode_request_head(head: &RequestHead) -> (r: Option<Vec<u8>>)
    ensures
        match r {
            Some(bytes) => request_head_bytes(
                head@.version,
                head@.method,
                head@.path,
                head@.headers,
            ) == Some(bytes@),
            None => request_head_bytes(head@.version, head@.method, head@.path, head@.headers)
                is None,
        },
{
    let mut req = WireRequest::new();
    req.set_version(Version::from(std::str::from_utf8(&head.version).ok()?));
    req.set_method(Method::try_from(std::str::from_utf8(&head.method).ok()?).ok()?);
    req.set_path(String::from_utf8(head.path.clone()).ok()?);
    for h in head.headers.iter() {
        req.headers_mut().insert(HeaderName::from_bytes(&h.0)?, HeaderValue::from_bytes(&h.1));
    }
    let mut buf = BinaryMut::new();
    req.encode_header(&mut buf).ok()?;
    Some(buf.into_slice_all())
}

/// `Response::encode_header` on a response with this version, this status
/// and these headers: the named bytes.
#[verifier::external_body]
pub(crate) fn encode_response_head(head: &ResponseHead) -> (r: Option<Vec<u8>>)
    ensures
        match r {
            Some(bytes) => response_head_bytes(head@.version, head@.status, head@.headers) == Some(
                bytes@,
            ),
            None => response_head_bytes(head@.version, head@.status, head@.headers) is None,
        },
{
    let mut res = WireResponse::new(());
    *res.version_mut() = Version::from(std::str::from_utf8(&head.version).ok()?);
    *res.status_mut() = StatusCode::from_u16(head.status).ok()?;
    for h in head.headers.iter() {
        res.headers_mut().insert(HeaderName::from_bytes(&h.0)?, HeaderValue::from_bytes(&h.1));
    }
    let mut buf = BinaryMut::new();
    res.encode_header(&mut buf).ok()?;
    Some(buf.into_slice_all())
}

/// A request with its body.
pub struct Request<B> {
    /// The request line and the headers.
    pub head: RequestHead,
    /// What the parser said of the head; for a request that was not parsed,
    /// what its maker says.
    pub facts: RequestFacts,
    /// The body.
    pub body: B,
}

/// A response with its body.
pub struct Response<B> {
    /// The status and the headers.
    pub head: ResponseHead,
    /// The body.
    pub body: B,
}

impl<B> Request<B> {
    /// The request with another body, and the body it had.
    pub fn into<C>(self, body: C) -> (r: (Request<C>, B))
        ensures
            r.0.head == self.head,
            r.0.facts == self.facts,
            r.0.body == body,
            r.1 == self.body,
    {
        (Request { head: self.head, facts: self.facts, body }, self.body)
    }
}

impl<B> Response<B> {
    /// The response with another body, and the body it had.
    pub fn into<C>(self, body: C) -> (r: (Response<C>, B))
        ensures
            r.0.head == self.head,
            r.0.body == body,
            r.1 == self.body,
    {
        (Response { head: self.head, body }, self.body)
    }

    /// Whether the status is one of success: from 200 up to 299.
    pub fn is_success(&self) -> (r: bool)
        ensures
            r == (200 <= self.head.status < 300),
    {
        200 <= self.head.status && self.head.status < 300
    }
}

} // verus!
