//! One stream of an HTTP/2 connection as it is received: the frames are
//! checked for their order, and the head and the bytes they hold are kept
//! until the message is built and its body is fed.

use vstd::prelude::*;
use crate::binary::mut_from_vec;
use crate::body::model::BodyView;
use crate::body::source::InnerReceiver;
use crate::body::{fresh, Body};
use crate::error::ProtError;
use crate::header::{find_header, header_value, list_view, HeaderList, HeaderSeq};
use crate::http1::io::{
    request_view, response_view, RecvRequest, RecvResponse, RequestView, ResponseView,
};
use crate::http2::frame::{Frame, FrameView, StreamIdentifier};
use crate::http2::send_response::{name_method, name_path, name_status};
use crate::message::{
    Request, RequestFacts, RequestHead, RequestHeadView, Response, ResponseHead, ResponseHeadView,
};

verus! {

/// `HTTP/2`, the version of the messages of a stream.
pub open spec fn http2() -> Seq<u8> {
    seq![72u8, 84, 84, 80, 47, 50]
}

/// `HTTP/2`, the version of the messages of a stream.
fn version_http2() -> (v: Vec<u8>)
    ensures
        v@ == http2(),
{
    let text: [u8; 6] = [72, 84, 84, 80, 47, 50];
    proof {
        assert(text@ =~= http2());
    }
    vstd::slice::slice_to_vec(&text)
}


/// How far a stream has come.
#[derive(Debug, Clone, Copy, PartialEq, Eq, Structural)]
pub enum StreamState {
    /// No frame yet.
    Idle,
    /// The head has come; bytes of the body may follow.
    Open,
    /// The last frame has come.
    Closed,
}

/// What an [`InnerStream`] holds.
pub struct InnerStreamView {
    /// The number of the stream.
    pub id: StreamIdentifier,
    /// How far the stream has come.
    pub state: StreamState,
    /// The fields of the head.
    pub fields: HeaderSeq,
    /// The bytes of the body that are not handed on.
    pub data: Seq<u8>,
    /// Whether the block of headers is complete.
    pub end_headers: bool,
    /// Whether the message is built.
    pub is_built: bool,
    /// Whether the end of the body is handed on.
    pub end_given: bool,
}

/// The fields that are no pseudo-headers: those whose names do not start
/// with a colon.
pub open spec fn plain_fields(fields: HeaderSeq) -> HeaderSeq
    decreases fields.len(),
{
    if fields.len() == 0 {
        Seq::empty()
    } else if fields[0].0.len() > 0 && fields[0].0[0] == 58 {
        plain_fields(fields.skip(1))
    } else {
        seq![fields[0]] + plain_fields(fields.skip(1))
    }
}

/// The number that three decimal digits stand for, if `value` is three
/// digits.
pub open spec fn status_of(value: Seq<u8>) -> Option<u16> {
    if value.len() == 3 && 48 <= value[0] <= 57 && 48 <= value[1] <= 57 && 48 <= value[2] <= 57 {
        Some(((value[0] - 48) * 100 + (value[1] - 48) * 10 + (value[2] - 48)) as u16)
    } else {
        None
    }
}

/// What the engine takes for known of a request that came as HTTP/2: nothing
/// of it was parsed from bytes, the connection stays, and the length of the
/// body is not known.
pub open spec fn stream_facts() -> RequestFacts {
    RequestFacts { len: 0, is_partial: false, is_nobody: false }
}

impl InnerStreamView {
    /// A stream without a frame.
    pub open spec fn idle(id: StreamIdentifier) -> InnerStreamView {
        InnerStreamView {
            id,
            state: StreamState::Idle,
            fields: Seq::empty(),
            data: Seq::empty(),
            end_headers: false,
            is_built: false,
            end_given: false,
        }
    }

    /// The stream after a frame came, and whether the frame came in order.
    /// The head comes first, in one frame or continued in those that follow
    /// it; bytes of the body follow the head; a second block of headers must
    /// end the stream; nothing follows the end. A frame out of order leaves
    /// the stream as it is.
    pub open spec fn pushed(self, frame: FrameView) -> (InnerStreamView, Result<(), ProtError>) {
        let next = if frame.header().flag.end_stream {
            StreamState::Closed
        } else {
            StreamState::Open
        };
        match frame {
            FrameView::Headers { header, fields } => match self.state {
                StreamState::Idle => (
                    InnerStreamView {
                        fields,
                        end_headers: header.flag.end_headers,
                        state: next,
                        ..self
                    },
                    Ok(()),
                ),
                StreamState::Open => if header.flag.end_stream {
                    (InnerStreamView { state: StreamState::Closed, ..self }, Ok(()))
                } else {
                    (self, Err(ProtError::ProtocolViolation))
                },
                StreamState::Closed => (self, Err(ProtError::ProtocolViolation)),
            },
            FrameView::Continuation { header, fields } => if self.state != StreamState::Idle
                && !self.end_headers {
                (
                    InnerStreamView {
                        fields: self.fields + fields,
                        end_headers: header.flag.end_headers,
                        ..self
                    },
                    Ok(()),
                )
            } else {
                (self, Err(ProtError::ProtocolViolation))
            },
            FrameView::Data { header, payload } => if self.state == StreamState::Open
                && self.end_headers {
                (InnerStreamView { data: self.data + payload, state: next, ..self }, Ok(()))
            } else {
                (self, Err(ProtError::ProtocolViolation))
            },
            _ => (self, Err(ProtError::ProtocolViolation)),
        }
    }

    /// The body of the message: the bytes that have come, and a channel for
    /// those that follow unless the stream has ended.
    pub open spec fn body(self) -> BodyView {
        BodyView {
            receiver: InnerReceiver::new_receiver_spec(),
            is_end: self.state == StreamState::Closed,
            ..fresh(Some(self.data))
        }
    }

    /// The stream once its message is built: the bytes that had come are in
    /// the body of the message.
    pub open spec fn built(self) -> InnerStreamView {
        InnerStreamView {
            data: Seq::empty(),
            is_built: true,
            end_given: self.state == StreamState::Closed,
            ..self
        }
    }

    /// The request that the stream holds, if its head is complete and names a
    /// method and a path.
    pub open spec fn request(self) -> Option<RequestView> {
        if self.state == StreamState::Idle || !self.end_headers || header_value(
            self.fields,
            name_method(),
        ) is None || header_value(self.fields, name_path()) is None {
            None
        } else {
            Some(
                RequestView {
                    head: RequestHeadView {
                        version: http2(),
                        method: header_value(self.fields, name_method())->0,
                        path: header_value(self.fields, name_path())->0,
                        headers: plain_fields(self.fields),
                    },
                    facts: stream_facts(),
                    body: self.body(),
                },
            )
        }
    }

    /// The response that the stream holds, if its head is complete and names
    /// a status of three digits.
    pub open spec fn response(self) -> Option<ResponseView> {
        if self.state == StreamState::Idle || !self.end_headers {
            None
        } else {
            match header_value(self.fields, name_status()) {
                Some(value) => match status_of(value) {
                    Some(status) => Some(
                        ResponseView {
                            head: ResponseHeadView {
                                version: http2(),
                                status,
                                headers: plain_fields(self.fields),
                            },
                            body: self.body(),
                        },
                    ),
                    None => None,
                },
                None => None,
            }
        }
    }

    /// The bytes to feed to the body of the message that is built, with the
    /// flag that tells the last, and the stream after they are taken: the
    /// bytes that have come since, if any, or the end by itself, once.
    pub open spec fn data_taken(self) -> (InnerStreamView, Option<(bool, Seq<u8>)>) {
        let ended = self.state == StreamState::Closed;
        if !self.is_built || (self.data.len() == 0 && (!ended || self.end_given)) {
            (self, None)
        } else {
            (
                InnerStreamView { data: Seq::empty(), end_given: ended, ..self },
                Some((ended, self.data)),
            )
        }
    }
}

/// One stream as it is received.
pub struct InnerStream {
    id: StreamIdentifier,
    state: StreamState,
    fields: HeaderList,
    data: Vec<u8>,
    end_headers: bool,
    is_built: bool,
    end_given: bool,
}

impl View for InnerStream {
    type V = InnerStreamView;

    closed spec fn view(&self) -> InnerStreamView {
        InnerStreamView {
            id: self.id,
            state: self.state,
            fields: list_view(self.fields@),
            data: self.data@,
            end_headers: self.end_headers,
            is_built: self.is_built,
            end_given: self.end_given,
        }
    }
}

/// Copies of the fields that are no pseudo-headers.
fn copy_plain_fields(fields: &HeaderList) -> (r: HeaderList)
    ensures
        list_view(r@) == plain_fields(list_view(fields@)),
{
    let mut out: HeaderList = Vec::new();
    let mut i: usize = 0;
    proof {
        assert(list_view(fields@).skip(0) =~= list_view(fields@));
        assert(list_view(out@) =~= Seq::<(Seq<u8>, Seq<u8>)>::empty());
    }
    while i < fields.len()
        invariant
            i <= fields@.len(),
            plain_fields(list_view(fields@)) == list_view(out@) + plain_fields(
                list_view(fields@).skip(i as int),
            ),
        decreases fields@.len() - i,
    {
        let ghost rest = list_view(fields@).skip(i as int);
        let ghost before = list_view(out@);
        proof {
            assert(rest[0] == list_view(fields@)[i as int]);
            assert(rest.skip(1) =~= list_view(fields@).skip(i + 1));
        }
        let pseudo = fields[i].0.len() > 0 && fields[i].0[0] == 58;
        if !pseudo {
            out.push((fields[i].0.clone(), fields[i].1.clone()));
            proof {
                assert(list_view(out@) =~= before + seq![rest[0]]);
                assert(before + (seq![rest[0]] + plain_fields(rest.skip(1))) =~= (before
                    + seq![rest[0]]) + plain_fields(rest.skip(1)));
            }
        }
        i = i + 1;
    }
    proof {
        assert(list_view(out@) + Seq::<(Seq<u8>, Seq<u8>)>::empty() =~= list_view(out@));
    }
    out
}

/// The number that three decimal digits stand for.
fn parse_status(value: &[u8]) -> (r: Option<u16>)
    ensures
        r == status_of(value@),
{
    if value.len() != 3 {
        return None;
    }
    let a = value[0];
    let b = value[1];
    let c = value[2];
    if 48 <= a && a <= 57 && 48 <= b && b <= 57 && 48 <= c && c <= 57 {
        Some((a - 48) as u16 * 100 + (b - 48) as u16 * 10 + (c - 48) as u16)
    } else {
        None
    }
}

impl InnerStream {
    /// A stream with its first frame; an error if a stream cannot begin with
    /// that frame.
    pub fn new(frame: Frame) -> (r: Result<InnerStream, ProtError>)
        ensures
            match r {
                Ok(s) => InnerStreamView::idle(frame@.header().id).pushed(frame@).1 is Ok && s@
                    == InnerStreamView::idle(frame@.header().id).pushed(frame@).0,
                Err(e) => InnerStreamView::idle(frame@.header().id).pushed(frame@).1 == Err::<
                    (),
                    ProtError,
                >(e),
            },
    {
        let mut s = InnerStream {
            id: frame.stream_id(),
            state: StreamState::Idle,
            fields: Vec::new(),
            data: Vec::new(),
            end_headers: false,
            is_built: false,
            end_given: false,
        };
        proof {
            assert(s@.fields =~= Seq::<(Seq<u8>, Seq<u8>)>::empty());
        }
        match s.push(frame) {
            Ok(_) => Ok(s),
            Err(e) => Err(e),
        }
    }

    /// The number of the stream.
    pub fn id(&self) -> (id: StreamIdentifier)
        ensures
            id == self@.id,
    {
        self.id
    }

    /// Whether the block of headers is complete.
    pub fn is_end_headers(&self) -> (r: bool)
        ensures
            r == self@.end_headers,
    {
        self.end_headers
    }

    /// Whether the last frame has come.
    pub fn is_end_stream(&self) -> (r: bool)
        ensures
            r == (self@.state == StreamState::Closed),
    {
        match self.state {
            StreamState::Closed => true,
            _ => false,
        }
    }

    /// Takes in the next frame of the stream: see
    /// [`InnerStreamView::pushed`].
    pub fn push(&mut self, frame: Frame) -> (r: Result<(), ProtError>)
        ensures
            final(self)@ == old(self)@.pushed(frame@).0,
            r == old(self)@.pushed(frame@).1,
    {
        let end_stream = frame.is_end_stream();
        let next = if end_stream {
            StreamState::Closed
        } else {
            StreamState::Open
        };
        match frame {
            Frame::Headers { header, fields } => match self.state {
                StreamState::Idle => {
                    self.fields = fields;
                    self.end_headers = header.flag.end_headers;
                    self.state = next;
                    Ok(())
                },
                StreamState::Open => if end_stream {
                    self.state = StreamState::Closed;
                    Ok(())
                } else {
                    Err(ProtError::ProtocolViolation)
                },
                StreamState::Closed => Err(ProtError::ProtocolViolation),
            },
            Frame::Continuation { header, fields } => {
                let idle = match self.state {
                    StreamState::Idle => true,
                    _ => false,
                };
                if !idle && !self.end_headers {
                    let ghost before = list_view(self.fields@);
                    let mut more = fields;
                    self.fields.append(&mut more);
                    self.end_headers = header.flag.end_headers;
                    proof {
                        assert(list_view(self.fields@) =~= before + list_view(fields@));
                    }
                    Ok(())
                } else {
                    Err(ProtError::ProtocolViolation)
                }
            },
            Frame::Data { header, payload } => {
                let open = match self.state {
                    StreamState::Open => true,
                    _ => false,
                };
                if open && self.end_headers {
                    let mut more = payload;
                    self.data.append(&mut more);
                    self.state = next;
                    Ok(())
                } else {
                    Err(ProtError::ProtocolViolation)
                }
            },
            _ => Err(ProtError::ProtocolViolation),
        }
    }

    /// The body of the message, with the bytes that have come.
    fn take_body(&mut self) -> (body: Body)
        ensures
            body@ == old(self)@.body(),
            final(self)@ == old(self)@.built(),
    {
        let mut data: Vec<u8> = Vec::new();
        data.append(&mut self.data);
        let ended = self.is_end_stream();
        self.is_built = true;
        self.end_given = ended;
        proof {
            assert(data@ =~= old(self)@.data);
        }
        Body::new(mut_from_vec(data), ended)
    }

    /// Builds the request that the stream holds. A stream without a complete
    /// head, or with one that names no method or no path, is out of order and
    /// stays as it is.
    pub fn build_request(&mut self) -> (r: Result<RecvRequest, ProtError>)
        ensures
            match r {
                Ok(req) => old(self)@.request() == Some(request_view(req)) && final(self)@ == old(
                    self,
                )@.built(),
                Err(e) => old(self)@.request() is None && e == ProtError::ProtocolViolation
                    && final(self)@ == old(self)@,
            },
    {
        let method_name: [u8; 7] = [58, 109, 101, 116, 104, 111, 100];
        let path_name: [u8; 5] = [58, 112, 97, 116, 104];
        proof {
            assert(method_name@ =~= name_method());
            assert(path_name@ =~= name_path());
        }
        match self.state {
            StreamState::Idle => {
                return Err(ProtError::ProtocolViolation);
            },
            _ => {},
        }
        if !self.end_headers {
            return Err(ProtError::ProtocolViolation);
        }
        let method = match find_header(&self.fields, &method_name) {
            Some(i) => self.fields[i].1.clone(),
            None => {
                return Err(ProtError::ProtocolViolation);
            },
        };
        let path = match find_header(&self.fields, &path_name) {
            Some(i) => self.fields[i].1.clone(),
            None => {
                return Err(ProtError::ProtocolViolation);
            },
        };
        let headers = copy_plain_fields(&self.fields);
        let body = self.take_body();
        Ok(
            Request {
                head: RequestHead { version: version_http2(), method, path, headers },
                facts: RequestFacts {
                    len: 0,
                    is_partial: false,
                    is_nobody: false,
                },
                body,
            },
        )
    }

    /// Builds the response that the stream holds. A stream without a
    /// complete head, or with one that names no status of three digits, is out
    /// of order and stays as it is.
    pub fn build_response(&mut self) -> (r: Result<RecvResponse, ProtError>)
        ensures
            match r {
                Ok(res) => old(self)@.response() == Some(response_view(res)) && final(self)@
                    == old(self)@.built(),
                Err(e) => old(self)@.response() is None && e == ProtError::ProtocolViolation
                    && final(self)@ == old(self)@,
            },
    {
        let status_name: [u8; 7] = [58, 115, 116, 97, 116, 117, 115];
        proof {
            assert(status_name@ =~= name_status());
        }
        match self.state {
            StreamState::Idle => {
                return Err(ProtError::ProtocolViolation);
            },
            _ => {},
        }
        if !self.end_headers {
            return Err(ProtError::ProtocolViolation);
        }
        let status = match find_header(&self.fields, &status_name) {
            Some(i) => match parse_status(self.fields[i].1.as_slice()) {
                Some(status) => status,
                None => {
                    return Err(ProtError::ProtocolViolation);
                },
            },
            None => {
                return Err(ProtError::ProtocolViolation);
            },
        };
        let headers = copy_plain_fields(&self.fields);
        let body = self.take_body();
        Ok(Response { head: ResponseHead { version: version_http2(), status, headers }, body })
    }

    /// Takes the bytes to feed to the body of the message that is built: see
    /// [`InnerStreamView::data_taken`].
    pub fn take_data(&mut self) -> (r: Option<(bool, Vec<u8>)>)
        ensures
            final(self)@ == old(self)@.data_taken().0,
            match r {
                Some((is_end, data)) => old(self)@.data_taken().1 == Some((is_end, data@)),
                None => old(self)@.data_taken().1 is None,
            },
    {
        let ended = self.is_end_stream();
        if !self.is_built || (self.data.len() == 0 && (!ended || self.end_given)) {
            return None;
        }
        let mut data: Vec<u8> = Vec::new();
        data.append(&mut self.data);
        self.end_given = ended;
        proof {
            assert(data@ =~= old(self)@.data);
        }
        Some((ended, data))
    }
}

} // verus!
