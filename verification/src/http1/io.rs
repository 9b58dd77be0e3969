//! The state of one HTTP/1.1 connection: what has been sent and read of the
//! message in each direction, and the messages that wait to be sent.

use vstd::prelude::*;
use std::time::Instant;
use algorithm::buf::{Binary, BinaryMut};
use crate::binary::{advance, chunk, freeze, mut_bytes, new_mut, put_slice, remaining};
use crate::body::model::{BodyView, PullAction};
use crate::body::source::Channel;
use crate::body::Body;
use crate::clock::now;
use crate::consts::MAGIC_LEN;
use crate::error::{ExtensionKind, ProtError};
use crate::header::{
    chunked_spec, compress_method_spec, declared_len, declared_len_spec, get_compress_method,
    is_chunked, is_keep_alive, keep_alive_spec,
};
use crate::message::{
    encode_request_head, encode_response_head, parse_request, parse_response, request_head_bytes,
    request_parsed, response_head_bytes, response_parsed, ParsedRequest, ParsedRequestView,
    ParsedResponse, ParsedResponseView, Request, RequestFacts, RequestHeadView, Response,
    ResponseFacts, ResponseHeadView,
};
use crate::send_stream::{SendStream, SendStreamView};

verus! {

/// A request whose body streams.
pub type RecvRequest = Request<Body>;

/// A response whose body streams.
pub type RecvResponse = Response<Body>;

/// How far the message of one direction has come.
#[derive(Debug, Clone, Copy, PartialEq, Eq, Structural)]
pub struct SendStatus {
    /// The body has been handed to the write buffer at least once.
    pub is_send_body: bool,
    /// The header has been written.
    pub is_send_header: bool,
    /// The whole message has been written.
    pub is_send_finish: bool,
    /// The header has been read.
    pub is_read_header_end: bool,
    /// The whole message has been read.
    pub is_read_finish: bool,
    /// The body that is read comes in chunks.
    pub is_chunked: bool,
    /// The bytes of the body that are still to be read; `usize::MAX` where
    /// the length is not known.
    pub left_read_body_len: usize,
}

impl SendStatus {
    /// Nothing sent, nothing read.
    pub open spec fn idle() -> SendStatus {
        SendStatus {
            is_send_body: false,
            is_send_header: false,
            is_send_finish: false,
            is_read_header_end: false,
            is_read_finish: false,
            is_chunked: false,
            left_read_body_len: 0,
        }
    }

    /// The status with nothing sent.
    pub open spec fn write_cleared(self) -> SendStatus {
        SendStatus { is_send_body: false, is_send_header: false, is_send_finish: false, ..self }
    }

    /// The status with nothing read.
    pub open spec fn read_cleared(self) -> SendStatus {
        SendStatus {
            is_read_finish: false,
            is_read_header_end: false,
            left_read_body_len: 0,
            is_chunked: false,
            ..self
        }
    }

    /// Forgets what was sent and what was read.
    pub fn clear(&mut self)
        ensures
            *final(self) == SendStatus::idle(),
    {
        self.clear_read();
        self.clear_write();
    }

    /// Forgets what was sent.
    pub fn clear_write(&mut self)
        ensures
            *final(self) == old(self).write_cleared(),
    {
        self.is_send_body = false;
        self.is_send_header = false;
        self.is_send_finish = false;
    }

    /// Forgets what was read.
    pub fn clear_read(&mut self)
        ensures
            *final(self) == old(self).read_cleared(),
    {
        self.is_read_finish = false;
        self.is_read_header_end = false;
        self.left_read_body_len = 0;
        self.is_chunked = false;
    }
}

impl Default for SendStatus {
    fn default() -> (s: Self)
        ensures
            s == SendStatus::idle(),
    {
        SendStatus {
            is_send_body: false,
            is_send_header: false,
            is_send_finish: false,
            is_read_header_end: false,
            is_read_finish: false,
            is_chunked: false,
            left_read_body_len: 0,
        }
    }
}

/// The bytes with which every HTTP/2 connection starts:
/// `PRI * HTTP/2.0 CR LF CR LF SM CR LF CR LF`.
pub open spec fn http2_magic() -> Seq<u8> {
    seq![
        80u8, 82, 73, 32, 42, 32, 72, 84, 84, 80, 47, 50, 46, 48, 13, 10, 13, 10, 83, 77, 13, 10,
        13, 10,
    ]
}

/// Whether `buf` starts with the HTTP/2 connection preface.
pub open spec fn starts_with_magic(buf: Seq<u8>) -> bool {
    buf.len() >= MAGIC_LEN && buf.take(MAGIC_LEN as int) == http2_magic()
}

/// Whether `buf` starts with the HTTP/2 connection preface.
pub fn is_http2_magic(buf: &[u8]) -> (r: bool)
    ensures
        r == starts_with_magic(buf@),
{
    let magic: [u8; 24] = [
        80,
        82,
        73,
        32,
        42,
        32,
        72,
        84,
        84,
        80,
        47,
        50,
        46,
        48,
        13,
        10,
        13,
        10,
        83,
        77,
        13,
        10,
        13,
        10,
    ];
    proof {
        assert(magic@ =~= http2_magic());
    }
    if buf.len() < MAGIC_LEN {
        return false;
    }
    let mut i: usize = 0;
    while i < MAGIC_LEN
        invariant
            i <= MAGIC_LEN,
            buf@.len() >= MAGIC_LEN,
            magic@ == http2_magic(),
            forall|j: int| 0 <= j < i ==> buf@[j] == http2_magic()[j],
        decreases MAGIC_LEN - i,
    {
        if buf[i] != magic[i] {
            proof {
                assert(buf@.take(MAGIC_LEN as int)[i as int] == buf@[i as int]);
            }
            return false;
        }
        i = i + 1;
    }
    proof {
        assert(buf@.take(MAGIC_LEN as int) =~= http2_magic());
    }
    true
}

/// The length that a head announces for its body, as the connection counts
/// it: `usize::MAX` where the length is not known.
pub open spec fn announced(body_len: isize) -> usize {
    if body_len < 0 {
        usize::MAX
    } else {
        body_len as usize
    }
}

/// A request by what it holds.
pub struct RequestView {
    pub head: RequestHeadView,
    pub facts: RequestFacts,
    pub body: BodyView,
}

/// A response by what it holds.
pub struct ResponseView {
    pub head: ResponseHeadView,
    pub body: BodyView,
}

pub open spec fn request_view(r: RecvRequest) -> RequestView {
    RequestView { head: r.head@, facts: r.facts, body: r.body@ }
}

pub open spec fn response_view(r: RecvResponse) -> ResponseView {
    ResponseView { head: r.head@, body: r.body@ }
}

pub open spec fn requests_view(list: Seq<RecvRequest>) -> Seq<RequestView> {
    Seq::new(list.len(), |i: int| request_view(list[i]))
}

pub open spec fn responses_view(list: Seq<RecvResponse>) -> Seq<ResponseView> {
    Seq::new(list.len(), |i: int| response_view(list[i]))
}

/// What a connection holds, but for the moment at which it last became idle:
/// of that moment each function of the connection says when it stays.
pub struct IoView {
    /// Whether this end is the server.
    pub is_server: bool,
    /// The read side.
    pub stream: SendStreamView,
    /// The bytes that wait to be written to the connection.
    pub write: Seq<u8>,
    /// The number of messages sent to their end.
    pub deal_req: usize,
    /// Whether the body of the message being read has a reader that is fed
    /// through a channel.
    pub has_sender: bool,
    /// The responses that wait to be sent, the next one first.
    pub res_list: Seq<ResponseView>,
    /// The requests that wait to be sent, the next one first.
    pub req_list: Seq<RequestView>,
    /// Whether the request read last asks to keep the connection open.
    pub is_keep_alive: bool,
    /// Whether the peer has closed the connection while a response was read.
    pub is_delay_close: bool,
    /// Whether nothing is under way.
    pub is_idle: bool,
    /// Whether bytes of the body that is read wait for room in its channel.
    pub is_body_waiting: bool,
    /// The number of requests that were read and are not answered to their
    /// end.
    pub unanswered: usize,
    /// Whether this end is to close the connection: a server has answered
    /// every request it read, and the last of them did not ask to keep the
    /// connection open.
    pub close_due: bool,
    /// How far the request has come.
    pub req_status: SendStatus,
    /// How far the response has come.
    pub res_status: SendStatus,
}

/// The outcome of sending what can be sent of one message.
pub struct Sent {
    pub status: SendStatus,
    pub body: BodyView,
    pub write: Seq<u8>,
    pub deal_req: usize,
    /// Whether the head could be written.
    pub ok: bool,
}

/// Sends what can be sent of one message. The head is written first, once;
/// `head` holds its bytes, or nothing where it cannot be written, which ends
/// the sending. Then the body runs a pipeline step and its output follows the
/// head, unless its last byte has gone through its pipeline and it was handed
/// on before; a step that fails adds nothing. A body whose last byte has gone
/// through then finishes the message, which is counted.
#[verifier::opaque]
pub open spec fn sent(
    status: SendStatus,
    head: Option<Seq<u8>>,
    body: BodyView,
    write: Seq<u8>,
    deal_req: usize,
) -> Sent {
    if !status.is_send_header && head is None {
        Sent { status, body, write, deal_req, ok: false }
    } else {
        let s1 = SendStatus { is_send_header: true, ..status };
        let w1 = if status.is_send_header {
            write
        } else {
            write + head->0
        };
        let go = !body.is_process_end || !s1.is_send_body;
        let p = body.processed();
        let b2 = if !go {
            body
        } else if p.1 is Ok {
            p.0.drained_out()
        } else {
            p.0
        };
        let w2 = if go && p.1 is Ok {
            w1 + p.0.out
        } else {
            w1
        };
        let s2 = SendStatus { is_send_body: s1.is_send_body || go, ..s1 };
        if b2.is_process_end {
            Sent {
                status: SendStatus { is_send_finish: true, ..s2 },
                body: b2,
                write: w2,
                deal_req: if deal_req < usize::MAX {
                    (deal_req + 1) as usize
                } else {
                    deal_req
                },
                ok: true,
            }
        } else {
            Sent { status: s2, body: b2, write: w2, deal_req, ok: true }
        }
    }
}

impl IoView {
    /// A connection on which nothing has happened.
    pub open spec fn fresh(is_server: bool) -> IoView {
        IoView {
            is_server,
            stream: SendStreamView::empty(),
            write: Seq::empty(),
            deal_req: 0,
            has_sender: false,
            res_list: Seq::empty(),
            req_list: Seq::empty(),
            is_keep_alive: false,
            is_delay_close: false,
            is_idle: true,
            is_body_waiting: false,
            unanswered: 0,
            close_due: false,
            req_status: SendStatus::idle(),
            res_status: SendStatus::idle(),
        }
    }

    /// Whether this end is to close the connection.
    pub open spec fn is_active_close(self) -> bool {
        self.close_due
    }

    /// The connection as it becomes idle.
    pub open spec fn now_ended(self) -> IoView {
        IoView {
            req_status: SendStatus::idle(),
            res_status: SendStatus::idle(),
            is_idle: true,
            ..self
        }
    }

    /// Whether no message is left half sent.
    pub open spec fn is_finished(self) -> bool {
        (self.req_list.len() == 0 || self.req_status.is_send_finish) && (self.res_list.len() == 0
            || self.res_status.is_send_finish)
    }

    /// The connection, idle if no message is left half sent.
    pub open spec fn finish_checked(self) -> IoView {
        if self.is_finished() {
            self.now_ended()
        } else {
            self
        }
    }

    /// The connection after it sent what can be sent of the response in
    /// front, and whether its head could be written. The status first takes
    /// note whether the headers announce chunks.
    pub open spec fn response_sent(self) -> (IoView, bool) {
        if self.res_list.len() == 0 {
            (self, true)
        } else {
            let r = self.res_list[0];
            let s = sent(
                self.front_status(),
                response_head_bytes(r.head.version, r.head.status, r.head.headers),
                r.body,
                self.write,
                self.deal_req,
            );
            (
                IoView {
                    res_status: s.status,
                    res_list: self.res_list.update(0, ResponseView { body: s.body, ..r }),
                    write: s.write,
                    deal_req: s.deal_req,
                    ..self
                },
                s.ok,
            )
        }
    }

    /// The status of the response in front as its sending goes on: before
    /// the head is written, it takes note whether the headers announce
    /// chunks.
    pub open spec fn front_status(self) -> SendStatus
        recommends
            self.res_list.len() > 0,
    {
        if self.res_status.is_send_header {
            self.res_status
        } else {
            SendStatus {
                is_chunked: chunked_spec(self.res_list[0].head.headers),
                ..self.res_status
            }
        }
    }

    /// The connection without the response in front, if that is sent to its
    /// end.
    pub open spec fn response_popped(self) -> IoView {
        if self.res_status.is_send_finish {
            self.response_taken().finish_checked()
        } else {
            self
        }
    }

    /// The number of requests that are left to answer once one more is
    /// answered.
    pub open spec fn answered(self) -> usize {
        if self.unanswered > 0 {
            (self.unanswered - 1) as usize
        } else {
            0
        }
    }

    /// Whether the response that is sent to its end is the last that a
    /// server owes, to a request that did not ask to keep the connection
    /// open.
    pub open spec fn last_answer(self) -> bool {
        self.is_server && !self.is_keep_alive && self.unanswered == 1
    }

    /// The connection without the response in front, which is sent to its
    /// end. One request more is answered. A server that has then answered
    /// every request it read is to close the connection, if the request read
    /// last did not ask to keep it open.
    pub open spec fn response_taken(self) -> IoView {
        IoView {
            res_list: if self.res_list.len() > 0 {
                self.res_list.skip(1)
            } else {
                self.res_list
            },
            res_status: self.res_status.write_cleared(),
            unanswered: self.answered(),
            close_due: self.close_due || self.last_answer(),
            ..self
        }
    }

    /// Whether the connection becomes idle as the response in front is taken
    /// from the list.
    pub open spec fn response_pop_idles(self) -> bool {
        self.res_status.is_send_finish && self.response_taken().is_finished()
    }

    /// The connection after it sent what can be sent of the request in front,
    /// and whether its head could be written.
    pub open spec fn request_sent(self) -> (IoView, bool) {
        if self.req_list.len() == 0 {
            (self, true)
        } else {
            let r = self.req_list[0];
            let s = sent(
                self.req_status,
                request_head_bytes(r.head.version, r.head.method, r.head.path, r.head.headers),
                r.body,
                self.write,
                self.deal_req,
            );
            (
                IoView {
                    req_status: s.status,
                    req_list: self.req_list.update(0, RequestView { body: s.body, ..r }),
                    write: s.write,
                    deal_req: s.deal_req,
                    ..self
                },
                s.ok,
            )
        }
    }

    /// The connection without the request in front, if that is sent to its
    /// end.
    pub open spec fn request_popped(self) -> IoView {
        if self.req_status.is_send_finish {
            self.request_taken().finish_checked()
        } else {
            self
        }
    }

    /// The connection without the request in front.
    pub open spec fn request_taken(self) -> IoView {
        IoView {
            req_list: if self.req_list.len() > 0 {
                self.req_list.skip(1)
            } else {
                self.req_list
            },
            req_status: self.req_status.write_cleared(),
            ..self
        }
    }

    /// Whether the connection becomes idle as the request in front is taken
    /// from the list.
    pub open spec fn request_pop_idles(self) -> bool {
        self.req_status.is_send_finish && self.request_taken().is_finished()
    }

    /// Whether the connection becomes idle in a round of sending.
    pub open spec fn write_idles(self) -> bool {
        let a = self.response_sent();
        a.1 && (a.0.response_pop_idles() || {
            let c = a.0.response_popped().request_sent();
            c.1 && c.0.request_pop_idles()
        })
    }

    /// One round of sending: the response in front, then the request in
    /// front, each as far as it can be sent, and each taken from its list once
    /// it is sent to its end. Returns the number of bytes that wait to be
    /// written; a head that cannot be written ends the round with an error.
    pub open spec fn write_polled(self) -> (IoView, Result<usize, ProtError>) {
        let a = self.response_sent();
        if !a.1 {
            (a.0, Err(ProtError::Parse))
        } else {
            let c = a.0.response_popped().request_sent();
            if !c.1 {
                (c.0, Err(ProtError::Parse))
            } else {
                let d = c.0.request_popped();
                (d, Ok(d.write.len() as usize))
            }
        }
    }
}

/// A connection stays open while its requests ask for it: a round of sending
/// does not mark for closing a connection whose request read last asked to
/// keep it open, nor a client's, and a server that is not marked does not
/// end while the peer has not closed the connection.
pub proof fn lemma_keep_alive_stays(v: IoView, wrote: Wrote, read: Read)
    requires
        !v.close_due,
        v.is_keep_alive || !v.is_server,
    ensures
        !v.write_polled().0.close_due,
        v.write_polled().0.is_keep_alive == v.is_keep_alive,
        read != Read::Closed ==> v.write_polled().0.request_next(wrote, read) != Next::Ended,
{
    reveal(sent);
}

/// A server closes the connection once it has sent to its end the answer to
/// the last request it read, if that request did not ask to keep the
/// connection open: with nothing left to write, its next step is the end.
pub proof fn lemma_close_after_last_answer(v: IoView, read: Read)
    requires
        v.is_server,
        !v.is_keep_alive,
        v.unanswered == 1,
        v.res_status.is_send_finish,
    ensures
        v.response_popped().close_due,
        v.response_popped().write.len() == 0 ==> v.response_popped().request_next(
            Wrote::Ready(0),
            read,
        ) == Next::Ended,
{
}

/// Responses leave in the order in which they were handed over: a round of
/// sending touches the response in front alone. The responses behind it keep
/// their places and are not changed, the bytes that reach the write buffer
/// are bytes of the response in front, and no other response is taken from
/// the list.
pub proof fn lemma_responses_in_order(v: IoView)
    requires
        v.res_list.len() > 0,
    ensures
        ({
            let r = v.res_list[0];
            let w = v.response_sent().0;
            let p = w.response_popped();
            &&& w.res_list.len() == v.res_list.len()
            &&& w.res_list.skip(1) == v.res_list.skip(1)
            &&& w.res_list[0].head == r.head
            &&& (p.res_list == w.res_list.skip(1) || p.res_list == w.res_list)
            &&& w.write == v.write || w.write == v.write + r.body.processed().0.out || (
            response_head_bytes(r.head.version, r.head.status, r.head.headers) is Some && (w.write == v.write
                + response_head_bytes(r.head.version, r.head.status, r.head.headers)->0 || w.write == v.write
                + response_head_bytes(r.head.version, r.head.status, r.head.headers)->0
                + r.body.processed().0.out))
        }),
{
    reveal(sent);
    let w = v.response_sent().0;
    assert(w.res_list.skip(1) =~= v.res_list.skip(1));
}

/// The messages of a connection and how far each direction has come.
pub struct ConnectionInfo {
    deal_req: usize,
    has_sender: bool,
    res_list: Vec<RecvResponse>,
    req_list: Vec<RecvRequest>,
    is_keep_alive: bool,
    is_delay_close: bool,
    is_idle: bool,
    is_body_waiting: bool,
    unanswered: usize,
    close_due: bool,
    req_status: SendStatus,
    res_status: SendStatus,
}

impl ConnectionInfo {
    /// Whether this end is to close the connection.
    pub closed spec fn active_close(&self) -> bool {
        self.close_due
    }

    /// Whether this end is to close the connection.
    pub fn is_active_close(&self) -> (r: bool)
        ensures
            r == self.active_close(),
    {
        self.close_due
    }
}

/// One HTTP/1.1 connection, without the socket: whoever holds the socket
/// hands over what it read and takes what is to be written.
pub struct IoBuffer {
    is_server: bool,
    send_stream: SendStream,
    write_buf: BinaryMut,
    inner: ConnectionInfo,
    ready_time: Instant,
}

impl View for IoBuffer {
    type V = IoView;

    closed spec fn view(&self) -> IoView {
        IoView {
            is_server: self.is_server,
            stream: self.send_stream@,
            write: mut_bytes(self.write_buf),
            deal_req: self.inner.deal_req,
            has_sender: self.inner.has_sender,
            res_list: responses_view(self.inner.res_list@),
            req_list: requests_view(self.inner.req_list@),
            is_keep_alive: self.inner.is_keep_alive,
            is_delay_close: self.inner.is_delay_close,
            is_idle: self.inner.is_idle,
            is_body_waiting: self.inner.is_body_waiting,
            unanswered: self.inner.unanswered,
            close_due: self.inner.close_due,
            req_status: self.inner.req_status,
            res_status: self.inner.res_status,
        }
    }
}

/// Sends what can be sent of one message: see [`sent`]. `head` holds the
/// bytes of the head if they could be made; it is not looked at once the head
/// is written.
fn send_message(
    status: &mut SendStatus,
    head: Option<Vec<u8>>,
    Ghost(named): Ghost<Option<Seq<u8>>>,
    body: &mut Body,
    write_buf: &mut BinaryMut,
    deal_req: &mut usize,
) -> (ok: bool)
    requires
        old(status).is_send_header || named == match head {
            Some(bytes) => Some(bytes@),
            None => None,
        },
    ensures
        sent(*old(status), named, old(body)@, mut_bytes(*old(write_buf)), *old(deal_req)) == (Sent {
            status: *final(status),
            body: final(body)@,
            write: mut_bytes(*final(write_buf)),
            deal_req: *final(deal_req),
            ok,
        }),
{
    reveal(sent);
    if !status.is_send_header {
        match head {
            Some(bytes) => {
                put_slice(write_buf, bytes.as_slice());
                status.is_send_header = true;
            },
            None => {
                return false;
            },
        }
    }
    if !body.is_process_end() || !status.is_send_body {
        status.is_send_body = true;
        let _ = body.poll_encode_write(write_buf);
    }
    if body.is_process_end() {
        status.is_send_finish = true;
        if *deal_req < usize::MAX {
            *deal_req = *deal_req + 1;
        }
    }
    true
}

impl IoBuffer {
    /// A connection on which nothing has happened.
    pub fn new(is_server: bool) -> (io: IoBuffer)
        ensures
            io@ == IoView::fresh(is_server),
    {
        Self::new_at(is_server, now())
    }

    /// A connection on which nothing has happened, made at the moment `at`.
    pub fn new_at(is_server: bool, at: Instant) -> (io: IoBuffer)
        ensures
            io@ == IoView::fresh(is_server),
            io.ready_time() == at,
    {
        let io = IoBuffer {
            is_server,
            send_stream: SendStream::empty(),
            write_buf: new_mut(),
            inner: ConnectionInfo {
                deal_req: 0,
                has_sender: false,
                res_list: Vec::new(),
                req_list: Vec::new(),
                is_keep_alive: false,
                is_delay_close: false,
                is_idle: true,
                is_body_waiting: false,
                unanswered: 0,
                close_due: false,
                req_status: SendStatus::default(),
                res_status: SendStatus::default(),
            },
            ready_time: at,
        };
        proof {
            assert(io@.res_list =~= Seq::<ResponseView>::empty());
            assert(io@.req_list =~= Seq::<RequestView>::empty());
        }
        io
    }

    /// Puts bytes that were read before in front of what the connection reads.
    pub fn set_read_cache(&mut self, binary: BinaryMut)
        ensures
            final(self)@ == (IoView {
                stream: SendStreamView {
                    read: old(self)@.stream.read + mut_bytes(binary),
                    ..old(self)@.stream
                },
                ..old(self)@
            }),
            final(self).ready_time() == old(self).ready_time(),
    {
        self.send_stream.put(chunk(&binary));
    }

    /// The moment that the connection holds as the one at which it last
    /// became idle; at first, the moment at which it was made.
    pub closed spec fn ready_time(&self) -> Instant {
        self.ready_time
    }

    /// The moment at which the connection last became idle.
    pub fn get_ready_time(&self) -> (r: &Instant)
        ensures
            *r == self.ready_time(),
    {
        &self.ready_time
    }

    /// Makes the connection idle if no message is left half sent; the
    /// moment at which it became idle is then the present one.
    pub fn check_finish_status(&mut self)
        ensures
            final(self)@ == old(self)@.finish_checked(),
            !old(self)@.is_finished() ==> final(self).ready_time() == old(self).ready_time(),
    {
        self.check_finish_status_at(now())
    }

    /// Makes the connection idle if no message is left half sent; `at` is
    /// the present moment, which the connection then holds as the one at
    /// which it became idle.
    pub fn check_finish_status_at(&mut self, at: Instant)
        ensures
            final(self)@ == old(self)@.finish_checked(),
            final(self).ready_time() == if old(self)@.is_finished() {
                at
            } else {
                old(self).ready_time()
            },
    {
        if (self.inner.req_list.len() == 0 || self.inner.req_status.is_send_finish) && (
        self.inner.res_list.len() == 0 || self.inner.res_status.is_send_finish) {
            self.set_now_end(at);
        }
    }

    /// Makes the connection idle at the moment `at`.
    fn set_now_end(&mut self, at: Instant)
        ensures
            final(self)@ == old(self)@.now_ended(),
            final(self).ready_time() == at,
    {
        self.inner.req_status.clear();
        self.inner.res_status.clear();
        self.ready_time = at;
        self.inner.is_idle = true;
    }

    /// Whether the message that this end reads has come to its end.
    pub fn is_read_end(&self) -> (r: bool)
        ensures
            r == if self@.is_server {
                self@.req_status.is_read_finish || self@.stream.is_end
            } else {
                self@.res_status.is_read_finish || self@.stream.is_end
            },
    {
        if self.is_server {
            self.inner.req_status.is_read_finish || self.send_stream.is_end()
        } else {
            self.inner.res_status.is_read_finish || self.send_stream.is_end()
        }
    }

    /// Whether this end has nothing left to send.
    pub fn is_write_end(&self) -> (r: bool)
        ensures
            r == if self@.is_server {
                self@.req_list.len() == 0 || self@.res_status.is_send_finish
            } else {
                self@.res_list.len() == 0 || self@.req_status.is_send_finish
            },
    {
        if self.is_server {
            self.inner.req_list.len() == 0 || self.inner.res_status.is_send_finish
        } else {
            self.inner.res_list.len() == 0 || self.inner.req_status.is_send_finish
        }
    }

    /// Whether nothing is under way.
    pub fn is_idle(&self) -> (r: bool)
        ensures
            r == self@.is_idle,
    {
        self.inner.is_idle
    }

    /// Whether this end is to close the connection.
    pub fn is_active_close(&self) -> (r: bool)
        ensures
            r == self@.is_active_close(),
    {
        self.inner.is_active_close()
    }

    /// The number of messages sent to their end.
    pub fn deal_req(&self) -> (n: usize)
        ensures
            n == self@.deal_req,
    {
        self.inner.deal_req
    }

    /// The bytes that wait to be written to the connection.
    pub fn write_buf(&self) -> (s: &[u8])
        ensures
            s@ == self@.write,
    {
        chunk(&self.write_buf)
    }

    /// Takes note that the first `n` of the bytes that waited were written to
    /// the connection. Returns whether none is left.
    pub fn advance_write(&mut self, n: usize) -> (empty: bool)
        requires
            n <= old(self)@.write.len(),
        ensures
            final(self)@ == (IoView { write: old(self)@.write.skip(n as int), ..old(self)@ }),
            empty == (final(self)@.write.len() == 0),
            final(self).ready_time() == old(self).ready_time(),
    {
        advance(&mut self.write_buf, n);
        remaining(&self.write_buf) == 0
    }

    /// Makes the head of the response in front, unless it is written, and
    /// takes note in the status whether the body goes out in chunks.
    fn front_response_head(&mut self) -> (head: Option<Vec<u8>>)
        requires
            old(self)@.res_list.len() > 0,
        ensures
            final(self)@ == (IoView { res_status: old(self)@.front_status(), ..old(self)@ }),
            final(self).inner.res_list == old(self).inner.res_list,
            final(self).ready_time() == old(self).ready_time(),
            old(self)@.res_status.is_send_header || response_head_bytes(
                old(self)@.res_list[0].head.version,
                old(self)@.res_list[0].head.status,
                old(self)@.res_list[0].head.headers,
            ) == match head {
                Some(bytes) => Some(bytes@),
                None => None,
            },
    {
        if self.inner.res_status.is_send_header {
            return None;
        }
        proof {
            assert(responses_view(self.inner.res_list@)[0] == response_view(
                self.inner.res_list@[0],
            ));
        }
        let chunked = is_chunked(&self.inner.res_list[0].head.headers);
        let head = encode_response_head(&self.inner.res_list[0].head);
        self.inner.res_status.is_chunked = chunked;
        head
    }

    /// Sends what can be sent of the response in front.
    fn send_front_response(&mut self) -> (ok: bool)
        ensures
            final(self)@ == old(self)@.response_sent().0,
            ok == old(self)@.response_sent().1,
            final(self).ready_time() == old(self).ready_time(),
    {
        if self.inner.res_list.len() == 0 {
            return true;
        }
        let head = self.front_response_head();
        let ghost list = self.inner.res_list@;
        proof {
            assert(responses_view(list)[0] == response_view(list[0]));
        }
        let mut res = self.inner.res_list.remove(0);
        let ok = send_message(
            &mut self.inner.res_status,
            head,
            Ghost(response_head_bytes(res.head@.version, res.head@.status, res.head@.headers)),
            &mut res.body,
            &mut self.write_buf,
            &mut self.inner.deal_req,
        );
        let ghost after = response_view(res);
        self.inner.res_list.insert(0, res);
        proof {
            assert(responses_view(self.inner.res_list@) =~= responses_view(list).update(0, after));
        }
        ok
    }

    /// Takes note that one request more is answered: see
    /// [`IoView::response_taken`].
    fn note_answered(&mut self)
        ensures
            final(self)@ == (IoView {
                unanswered: old(self)@.answered(),
                close_due: old(self)@.close_due || old(self)@.last_answer(),
                ..old(self)@
            }),
            final(self).ready_time() == old(self).ready_time(),
    {
        if self.is_server && !self.inner.is_keep_alive && self.inner.unanswered == 1 {
            self.inner.close_due = true;
        }
        if self.inner.unanswered > 0 {
            self.inner.unanswered = self.inner.unanswered - 1;
        }
    }

    /// Takes the response in front from the list.
    fn drop_front_response(&mut self)
        ensures
            final(self)@ == (IoView {
                res_list: if old(self)@.res_list.len() > 0 {
                    old(self)@.res_list.skip(1)
                } else {
                    old(self)@.res_list
                },
                res_status: old(self)@.res_status.write_cleared(),
                ..old(self)@
            }),
            final(self).ready_time() == old(self).ready_time(),
    {
        let ghost list = self.inner.res_list@;
        if self.inner.res_list.len() > 0 {
            self.inner.res_list.remove(0);
        }
        proof {
            if list.len() > 0 {
                assert(responses_view(self.inner.res_list@) =~= responses_view(list).skip(1));
            }
        }
        self.inner.res_status.clear_write();
    }

    /// Takes the response in front from the list if it is sent to its end;
    /// `at` is the present moment.
    fn pop_response(&mut self, at: Instant)
        ensures
            final(self)@ == old(self)@.response_popped(),
            final(self).ready_time() == if old(self)@.response_pop_idles() {
                at
            } else {
                old(self).ready_time()
            },
    {
        if self.inner.res_status.is_send_finish {
            self.note_answered();
            self.drop_front_response();
            self.check_finish_status_at(at);
        }
    }

    /// Sends what can be sent of the request in front.
    fn send_front_request(&mut self) -> (ok: bool)
        ensures
            final(self)@ == old(self)@.request_sent().0,
            ok == old(self)@.request_sent().1,
            final(self).ready_time() == old(self).ready_time(),
    {
        if self.inner.req_list.len() == 0 {
            return true;
        }
        let ghost list = self.inner.req_list@;
        let mut req = self.inner.req_list.remove(0);
        let head = if !self.inner.req_status.is_send_header {
            encode_request_head(&req.head)
        } else {
            None
        };
        let ok = send_message(
            &mut self.inner.req_status,
            head,
            Ghost(
                request_head_bytes(
                    req.head@.version,
                    req.head@.method,
                    req.head@.path,
                    req.head@.headers,
                ),
            ),
            &mut req.body,
            &mut self.write_buf,
            &mut self.inner.deal_req,
        );
        let ghost after = request_view(req);
        self.inner.req_list.insert(0, req);
        proof {
            assert(requests_view(self.inner.req_list@) =~= requests_view(list).update(0, after));
            assert(requests_view(list)[0] == request_view(list[0]));
        }
        ok
    }

    /// Takes the request in front from the list if it is sent to its end;
    /// `at` is the present moment.
    fn pop_request(&mut self, at: Instant)
        ensures
            final(self)@ == old(self)@.request_popped(),
            final(self).ready_time() == if old(self)@.request_pop_idles() {
                at
            } else {
                old(self).ready_time()
            },
    {
        if self.inner.req_status.is_send_finish {
            let ghost list = self.inner.req_list@;
            if self.inner.req_list.len() > 0 {
                self.inner.req_list.remove(0);
            }
            proof {
                if list.len() > 0 {
                    assert(requests_view(self.inner.req_list@) =~= requests_view(list).skip(1));
                }
            }
            self.inner.req_status.clear_write();
            self.check_finish_status_at(at);
        }
    }

    /// One round of sending: see [`IoView::write_polled`]. The bytes to write
    /// are then in the write buffer; their number is returned.
    pub fn poll_write(&mut self) -> (r: Result<usize, ProtError>)
        ensures
            final(self)@ == old(self)@.write_polled().0,
            r == old(self)@.write_polled().1,
            !old(self)@.write_idles() ==> final(self).ready_time() == old(self).ready_time(),
    {
        self.poll_write_at(now())
    }

    /// One round of sending at the moment `at`: see
    /// [`IoView::write_polled`]. A connection that becomes idle in the round
    /// holds `at` as the moment at which it did.
    pub fn poll_write_at(&mut self, at: Instant) -> (r: Result<usize, ProtError>)
        ensures
            final(self)@ == old(self)@.write_polled().0,
            r == old(self)@.write_polled().1,
            final(self).ready_time() == if old(self)@.write_idles() {
                at
            } else {
                old(self).ready_time()
            },
    {
        if !self.send_front_response() {
            return Err(ProtError::Parse);
        }
        self.pop_response(at);
        if !self.send_front_request() {
            return Err(ProtError::Parse);
        }
        self.pop_request(at);
        Ok(remaining(&self.write_buf))
    }

    /// Hands over a response to send, behind those that wait already.
    pub fn send_response(&mut self, res: RecvResponse) -> (r: Result<(), ProtError>)
        ensures
            r is Ok,
            final(self)@ == (IoView {
                res_list: old(self)@.finish_checked().res_list.push(response_view(res)),
                is_idle: false,
                ..old(self)@.finish_checked()
            }),
            !old(self)@.is_finished() ==> final(self).ready_time() == old(self).ready_time(),
    {
        self.send_response_at(res, now())
    }

    /// Hands over a response to send at the moment `at`, behind those that wait
    /// already. A connection on which no message was left half sent became
    /// idle first, at that moment.
    pub fn send_response_at(&mut self, res: RecvResponse, at: Instant) -> (r: Result<(), ProtError>)
        ensures
            r is Ok,
            final(self)@ == (IoView {
                res_list: old(self)@.finish_checked().res_list.push(response_view(res)),
                is_idle: false,
                ..old(self)@.finish_checked()
            }),
            final(self).ready_time() == if old(self)@.is_finished() {
                at
            } else {
                old(self).ready_time()
            },
    {
        self.check_finish_status_at(at);
        let ghost list = self.inner.res_list@;
        self.inner.res_list.push(res);
        self.inner.is_idle = false;
        proof {
            assert(responses_view(self.inner.res_list@) =~= responses_view(list).push(
                response_view(res),
            ));
        }
        Ok(())
    }

    /// Hands over a request to send, behind those that wait already.
    pub fn send_request(&mut self, req: RecvRequest) -> (r: Result<(), ProtError>)
        ensures
            r is Ok,
            final(self)@ == (IoView {
                req_list: old(self)@.finish_checked().req_list.push(request_view(req)),
                is_idle: false,
                ..old(self)@.finish_checked()
            }),
            !old(self)@.is_finished() ==> final(self).ready_time() == old(self).ready_time(),
    {
        self.send_request_at(req, now())
    }

    /// Hands over a request to send at the moment `at`, behind those that wait
    /// already. A connection on which no message was left half sent became
    /// idle first, at that moment.
    pub fn send_request_at(&mut self, req: RecvRequest, at: Instant) -> (r: Result<(), ProtError>)
        ensures
            r is Ok,
            final(self)@ == (IoView {
                req_list: old(self)@.finish_checked().req_list.push(request_view(req)),
                is_idle: false,
                ..old(self)@.finish_checked()
            }),
            final(self).ready_time() == if old(self)@.is_finished() {
                at
            } else {
                old(self).ready_time()
            },
    {
        self.check_finish_status_at(at);
        let ghost list = self.inner.req_list@;
        self.inner.req_list.push(req);
        self.inner.is_idle = false;
        proof {
            assert(requests_view(self.inner.req_list@) =~= requests_view(list).push(
                request_view(req),
            ));
        }
        Ok(())
    }

    /// Takes the connection apart: the bytes read that were not looked at,
    /// and the bytes that waited to be written.
    pub fn into(self) -> (r: (BinaryMut, BinaryMut))
        ensures
            mut_bytes(r.0) == self@.stream.read,
            mut_bytes(r.1) == self@.write,
    {
        let mut io = self;
        let mut read = new_mut();
        put_slice(&mut read, io.send_stream.unread());
        proof {
            assert(mut_bytes(read) =~= self@.stream.read);
        }
        (read, io.write_buf)
    }
}

/// What became of the bytes that waited to be written.
#[derive(Debug, Clone, Copy, PartialEq, Eq, Structural)]
pub enum Wrote {
    /// Some are still waiting.
    Pending,
    /// All were written, this many in the last write; none if none waited.
    Ready(usize),
}

/// What reading from the connection gave.
#[derive(Debug, Clone, Copy, PartialEq, Eq, Structural)]
pub enum Read {
    /// Nothing yet.
    Pending,
    /// The peer has closed the connection.
    Closed,
    /// Bytes, which the connection has taken in.
    Data,
}

/// What a connection is to do next about the message it reads.
#[derive(Debug, Clone, Copy, PartialEq, Eq, Structural)]
pub enum Next {
    /// Nothing: there will be no further message.
    Ended,
    /// Wait for more bytes.
    Pending,
    /// Hand on the bytes of the body that is being read.
    Body,
    /// Read the head of the next message.
    Head,
}

/// What is to be done with the bytes of a body.
pub enum Dealt {
    /// These bytes go into the channel of the body; the flag tells whether
    /// they are its last.
    Send(bool, Binary),
    /// The channel is full: the bytes stay where they are until it has room.
    Wait,
    /// Nothing is left to hand on; the flag tells whether the connection is
    /// to be closed.
    Done(bool),
}

/// [`Dealt`] by its bytes.
pub enum DealtView {
    Send(bool, Seq<u8>),
    Wait,
    Done(bool),
}

impl View for Dealt {
    type V = DealtView;

    open spec fn view(&self) -> DealtView {
        match *self {
            Dealt::Send(is_end, bin) => DealtView::Send(is_end, crate::binary::bin_bytes(bin)),
            Dealt::Wait => DealtView::Wait,
            Dealt::Done(close) => DealtView::Done(close),
        }
    }
}

/// The pieces of a list, each by its bytes.
pub open spec fn pieces(reads: Seq<Vec<u8>>) -> Seq<Seq<u8>> {
    Seq::new(reads.len(), |i: int| reads[i]@)
}

/// The outcome of a step of handing on a body, by its bytes.
pub open spec fn dealt_view(r: Result<Dealt, ProtError>) -> Result<DealtView, ProtError> {
    match r {
        Ok(d) => Ok(d@),
        Err(e) => Err(e),
    }
}

/// What the reading of a head gave.
pub enum Polled<T> {
    /// Wait for more bytes.
    Pending,
    /// Nothing: there will be no further message.
    Ended,
    /// The connection cannot go on.
    Failed(ProtError),
    /// A message, and whether its body is fed through a channel from what
    /// the connection reads later.
    Ready(T, bool),
}

/// [`Polled`] by what it holds. The request for HTTP/2 stands apart from the
/// other errors, with the bytes that it carries.
pub enum PolledView<T> {
    Pending,
    Ended,
    Failed(ProtError),
    Upgrade(Seq<u8>),
    Ready(T, bool),
}

/// The body that a connection makes for a message whose head it has read,
/// with the read side afterwards, whether the body is to be fed through a
/// channel, and whether the bytes read were in order. A message that
/// announces no body gets an empty one; any other gets the bytes of its body
/// that have arrived, and a channel for the rest.
#[verifier::opaque]
pub open spec fn body_built(status: SendStatus, stream: SendStreamView) -> (
    SendStreamView,
    BodyView,
    bool,
    Result<(), ProtError>,
) {
    let s1 = SendStreamView {
        left: status.left_read_body_len,
        is_end_headers: true,
        is_end: stream.is_end || status.left_read_body_len == 0,
        is_chunked: status.is_chunked,
        ..stream
    };
    if status.left_read_body_len == 0 {
        (s1, crate::body::fresh(None), false, Ok(()))
    } else {
        let p = s1.processed();
        let s2 = SendStreamView { body: Seq::empty(), ..p.0 };
        (
            s2,
            BodyView {
                receiver: crate::body::source::InnerReceiver::new_receiver_spec(),
                is_end: s2.is_end,
                ..crate::body::fresh(Some(p.0.body))
            },
            true,
            p.1,
        )
    }
}

impl IoView {
    /// The connection after it took in bytes that were read, and their
    /// number; the error of the read side where they are not in order.
    pub open spec fn read_polled(self, data: Seq<u8>) -> (IoView, Result<usize, ProtError>) {
        let p = SendStreamView { read: self.stream.read + data, ..self.stream }.processed();
        (
            IoView { stream: p.0, ..self },
            match p.1 {
                Ok(_) => Ok(data.len() as usize),
                Err(e) => Err(e),
            },
        )
    }

    /// The connection after it took in, one after the other, the pieces that
    /// a round of reading gave, and what the round gave in all: an error as
    /// soon as a piece is not in order; else that the peer has closed the
    /// connection, if it has; else whether any byte was read. `got` tells
    /// whether a byte was read before.
    pub open spec fn all_read(self, reads: Seq<Seq<u8>>, closed: bool, got: bool) -> (
        IoView,
        Result<Read, ProtError>,
    )
        decreases reads.len(),
    {
        if reads.len() == 0 {
            (
                self,
                Ok(
                    if closed {
                        Read::Closed
                    } else if got {
                        Read::Data
                    } else {
                        Read::Pending
                    },
                ),
            )
        } else {
            let r = self.read_polled(reads[0]);
            match r.1 {
                Err(e) => (r.0, Err(e)),
                Ok(_) => r.0.all_read(reads.skip(1), closed, got || reads[0].len() > 0),
            }
        }
    }

    /// Whether bytes of the body of the message that this end reads wait for
    /// room in the channel of that body.
    pub open spec fn body_held(self, is_req: bool) -> bool {
        self.is_body_waiting && self.read_status(is_req).is_read_header_end
    }

    /// What a server is to do next. It is at its end when it has closed the
    /// connection itself, with nothing left to write, or when the peer has
    /// closed it. With nothing read it waits, unless bytes of a body wait
    /// for room in their channel: those it tries to hand on.
    pub open spec fn request_next(self, wrote: Wrote, read: Read) -> Next {
        if wrote == Wrote::Ready(0) && self.is_active_close() && self.write.len() == 0 {
            Next::Ended
        } else if read == Read::Closed {
            Next::Ended
        } else if read == Read::Pending && !self.body_held(true) {
            Next::Pending
        } else if self.req_status.is_read_header_end {
            Next::Body
        } else {
            Next::Head
        }
    }

    /// The status of the message that this end reads.
    pub open spec fn read_status(self, is_req: bool) -> SendStatus {
        if is_req {
            self.req_status
        } else {
            self.res_status
        }
    }

    /// The connection with another status for the message that this end
    /// reads.
    pub open spec fn with_read_status(self, is_req: bool, status: SendStatus) -> IoView {
        if is_req {
            IoView { req_status: status, ..self }
        } else {
            IoView { res_status: status, ..self }
        }
    }

    /// Whether the connection is to be closed once no body is handed on:
    /// this end closes it and has nothing left to write, or the peer has
    /// closed it.
    pub open spec fn closing(self) -> bool {
        (self.is_active_close() && self.write.len() == 0) || self.is_delay_close
    }

    /// One step of handing on the body that is read; `channel` is what the
    /// channel of the body said when it was asked for room. Without a channel
    /// the handing on is done at once, and tells whether the connection is to
    /// be closed. So it is once the end of the body was handed on; the
    /// connection is then to be closed if the peer has closed it. Else a
    /// channel whose reader is gone fails the connection; a full one leaves
    /// everything where it is, and the connection takes note that bytes wait;
    /// into one that has room go the bytes that [`Self::body_taken`] gives.
    pub open spec fn dealt(self, is_req: bool, channel: Channel) -> (
        IoView,
        Result<DealtView, ProtError>,
    ) {
        if !self.has_sender {
            (self, Ok(DealtView::Done(self.closing())))
        } else if self.read_status(is_req).is_read_finish {
            (IoView { is_body_waiting: false, ..self }, Ok(DealtView::Done(self.is_delay_close)))
        } else {
            match channel {
                Channel::Closed => (self, Err(ProtError::Extension(ExtensionKind::SenderError))),
                Channel::Full => (IoView { is_body_waiting: true, ..self }, Ok(DealtView::Wait)),
                Channel::Room => IoView { is_body_waiting: false, ..self }.body_taken(is_req),
            }
        }
    }

    /// The connection after the bytes of the body that have arrived were
    /// taken from the read side, to be sent into the channel of the body.
    /// They are its last if the body has come to its end, or if the peer has
    /// closed the connection; the end is handed on also where no byte goes
    /// with it, and the status takes note of it. With no bytes and no end
    /// the handing on is done.
    pub open spec fn body_taken(self, is_req: bool) -> (IoView, Result<DealtView, ProtError>) {
        let p = self.stream.processed();
        let stream = SendStreamView { body: Seq::empty(), ..p.0 };
        let next = IoView { stream, ..self };
        let ended = stream.is_end || self.is_delay_close;
        match p.1 {
            Err(e) => (next, Err(e)),
            Ok(_) => if p.0.body.len() == 0 && !ended {
                (next, Ok(DealtView::Done(false)))
            } else {
                (
                    next.with_read_status(
                        is_req,
                        SendStatus { is_read_finish: ended, ..self.read_status(is_req) },
                    ),
                    Ok(DealtView::Send(ended, p.0.body)),
                )
            },
        }
    }

    /// The server after the body was handed on. While the body is under way
    /// the server waits. A body that is read to its end gives way to the
    /// next head, which is read if bytes are there.
    pub open spec fn request_body_dealt(self) -> (IoView, Next) {
        let a = if self.req_status.is_read_finish {
            IoView {
                req_status: self.req_status.read_cleared(),
                stream: SendStreamView { is_end_headers: false, ..self.stream },
                ..self
            }
        } else {
            self
        };
        if a.req_status.is_read_header_end || a.stream.read.len() == 0 {
            (a, Next::Pending)
        } else {
            (a, Next::Head)
        }
    }

    /// The server after the parser looked at the bytes read. Bytes that start
    /// with the HTTP/2 preface ask for HTTP/2, with the bytes behind the
    /// preface; they stay where they are. The front of a head waits for more,
    /// no head is an error. A head is taken from the bytes read; its request
    /// gets the body that [`body_built`] makes, with the coding that the
    /// headers name. A body of unknown length is announced by a method that
    /// has a body and a head that declares no length; it may be chunked.
    pub open spec fn request_parsed_step(self, parsed: ParsedRequestView) -> (
        IoView,
        PolledView<RequestView>,
    ) {
        if starts_with_magic(self.stream.read) {
            (self, PolledView::Upgrade(self.stream.read.skip(MAGIC_LEN as int)))
        } else {
            match parsed {
                ParsedRequestView::Partial => (self, PolledView::Pending),
                ParsedRequestView::Invalid => (self, PolledView::Failed(ProtError::Parse)),
                ParsedRequestView::Complete(head, facts) => if facts.is_partial {
                    (self, PolledView::Pending)
                } else {
                    self.request_accepted(head, facts)
                },
            }
        }
    }

    /// The number of requests to answer once one more is read.
    pub open spec fn one_more(self) -> usize {
        if self.unanswered < usize::MAX {
            (self.unanswered + 1) as usize
        } else {
            self.unanswered
        }
    }

    /// The server after it took the head of a request from the bytes read,
    /// with the request. The headers say how long the body is and, with the
    /// version, whether the connection is to stay open.
    pub open spec fn request_accepted(self, head: RequestHeadView, facts: RequestFacts) -> (
        IoView,
        PolledView<RequestView>,
    ) {
        let a = self.request_begun(head, facts);
        let b = body_built(a.req_status, a.stream);
        let next = IoView { stream: b.0, ..a };
        match b.3 {
            Err(e) => (next, failed_view(e)),
            Ok(_) => {
                let body = BodyView { origin_method: compress_method_spec(head.headers), ..b.1 };
                (
                    next.request_body_noted(body.is_end, b.2),
                    PolledView::Ready(RequestView { head, facts, body }, b.2),
                )
            },
        }
    }

    /// The server once the head of a request was read: the read side starts
    /// a new message behind the head, the status of the request says what
    /// the head announces, and the request is to be answered.
    pub open spec fn request_begun(self, head: RequestHeadView, facts: RequestFacts) -> IoView {
        let len = declared_len_spec(head.headers);
        IoView {
            stream: head_taken(self.stream, facts.len),
            req_status: head_read(
                self.req_status,
                !facts.is_nobody && len == 0,
                chunked_spec(head.headers),
                len,
            ),
            is_keep_alive: keep_alive_spec(head.version, head.headers),
            unanswered: self.one_more(),
            ..self
        }
    }

    /// The server once the body of the request read was made: `fed` tells
    /// whether the body is fed through a channel, and nothing is left to read
    /// of the request if the body has ended.
    pub open spec fn request_body_noted(self, ended: bool, fed: bool) -> IoView {
        if ended {
            IoView {
                stream: SendStreamView { is_end_headers: false, ..self.stream },
                req_status: self.req_status.read_cleared(),
                has_sender: fed,
                ..self
            }
        } else {
            IoView { has_sender: fed, ..self }
        }
    }
}

/// The status of a direction once the head of a message was read. `unknown`
/// tells that the length of the body is not known, `chunked` that the headers
/// announce chunks, which counts for a body of unknown length alone.
pub open spec fn head_read(status: SendStatus, unknown: bool, chunked: bool, body_len: isize) -> SendStatus {
    SendStatus {
        is_send_body: false,
        is_send_finish: false,
        is_read_header_end: true,
        left_read_body_len: if unknown {
            usize::MAX
        } else {
            announced(body_len)
        },
        is_chunked: status.is_chunked || (unknown && chunked),
        ..status
    }
}

/// The read side once a head of `len` bytes was taken from the bytes read: a
/// new message starts.
pub open spec fn head_taken(stream: SendStreamView, len: usize) -> SendStreamView {
    SendStreamView {
        read: stream.read.skip(len as int),
        is_end: false,
        is_chunked: false,
        is_end_headers: false,
        left: 0,
        ..stream
    }
}

/// An error as the outcome of reading a head.
pub open spec fn failed_view<T>(e: ProtError) -> PolledView<T> {
    match e {
        ProtError::ServerUpgradeHttp2(rest) => PolledView::Upgrade(rest@),
        _ => PolledView::Failed(e),
    }
}

/// What the reading of a request head gave, by what it holds.
pub open spec fn polled_request_view(p: Polled<RecvRequest>) -> PolledView<RequestView> {
    match p {
        Polled::Pending => PolledView::Pending,
        Polled::Ended => PolledView::Ended,
        Polled::Failed(e) => failed_view(e),
        Polled::Ready(r, fed) => PolledView::Ready(request_view(r), fed),
    }
}

/// What the reading of a response head gave, by what it holds.
pub open spec fn polled_response_view(p: Polled<RecvResponse>) -> PolledView<ResponseView> {
    match p {
        Polled::Pending => PolledView::Pending,
        Polled::Ended => PolledView::Ended,
        Polled::Failed(e) => failed_view(e),
        Polled::Ready(r, fed) => PolledView::Ready(response_view(r), fed),
    }
}

/// The status of a direction once the head of a message was read: see
/// [`head_read`].
fn status_of_head(status: SendStatus, unknown: bool, chunked: bool, body_len: isize) -> (r:
    SendStatus)
    ensures
        r == head_read(status, unknown, chunked, body_len),
{
    let mut next = status;
    next.is_send_body = false;
    next.is_send_finish = false;
    next.is_read_header_end = true;
    next.left_read_body_len = if unknown {
        usize::MAX
    } else {
        announced_len(body_len)
    };
    if unknown && chunked {
        next.is_chunked = true;
    }
    next
}

/// The length that a head announces for its body, as the connection counts
/// it.
fn announced_len(body_len: isize) -> (n: usize)
    ensures
        n == announced(body_len),
{
    if body_len < 0 {
        usize::MAX
    } else {
        body_len as usize
    }
}

/// Makes the body of a message whose head was read: see [`body_built`].
fn build_body(status: &SendStatus, send_stream: &mut SendStream) -> (r: Result<
    (Body, bool),
    ProtError,
>)
    ensures
        final(send_stream)@ == body_built(*status, old(send_stream)@).0,
        match r {
            Ok((body, fed)) => body_built(*status, old(send_stream)@).3 is Ok && body@
                == body_built(*status, old(send_stream)@).1 && fed == body_built(
                *status,
                old(send_stream)@,
            ).2,
            Err(e) => body_built(*status, old(send_stream)@).3 == Err::<(), ProtError>(e),
        },
{
    reveal(body_built);
    send_stream.set_left_body(status.left_read_body_len);
    send_stream.set_chunked(status.is_chunked);
    if status.left_read_body_len == 0 {
        return Ok((Body::empty(), false));
    }
    let mut read_data = new_mut();
    let ghost announced = send_stream@;
    match send_stream.read_data(&mut read_data) {
        Err(e) => Err(e),
        Ok(_) => {
            proof {
                assert(mut_bytes(read_data) =~= announced.processed().0.body);
            }
            Ok((Body::new(read_data, send_stream.is_end()), true))
        },
    }
}

impl IoView {
    /// What a client is to do next, and the client after it took note of a
    /// connection that the peer has closed. A client whose peer had closed
    /// the connection before is at its end, and with nothing read it waits,
    /// unless bytes of a body wait for room in their channel: those it tries
    /// to hand on.
    pub open spec fn response_next(self, read: Read) -> (IoView, Next) {
        if self.is_delay_close && !self.body_held(false) {
            (self, Next::Ended)
        } else if read == Read::Pending && !self.body_held(false) {
            (self, Next::Pending)
        } else {
            let a = IoView { is_delay_close: self.is_delay_close || read == Read::Closed, ..self };
            if a.res_status.is_read_header_end {
                (a, Next::Body)
            } else {
                (a, Next::Head)
            }
        }
    }

    /// The client after the body was handed on: a body that is read to its
    /// end is forgotten; the client is at its end if the connection is to be
    /// closed, else it waits.
    pub open spec fn response_body_dealt(self, is_close: bool) -> (IoView, Next) {
        (
            if self.res_status.is_read_finish {
                IoView { res_status: self.res_status.read_cleared(), ..self }
            } else {
                self
            },
            if is_close {
                Next::Ended
            } else {
                Next::Pending
            },
        )
    }

    /// The client after the parser looked at the bytes read. The front of a
    /// head waits for more, unless the peer has closed the connection; no
    /// head is an error. A head is taken from the bytes read. A response that
    /// switches protocols, with status 101, gets an empty body at once; any
    /// other gets the body that [`body_built`] makes, with the coding that
    /// the headers name. A body of unknown length is announced by a status of
    /// success and a head that declares no length; it may be chunked.
    pub open spec fn response_parsed_step(self, parsed: ParsedResponseView) -> (
        IoView,
        PolledView<ResponseView>,
    ) {
        let waiting = if self.is_delay_close {
            PolledView::Ended
        } else {
            PolledView::Pending
        };
        match parsed {
            ParsedResponseView::Partial => (self, waiting),
            ParsedResponseView::Invalid => (self, PolledView::Failed(ProtError::Parse)),
            ParsedResponseView::Complete(head, facts) => if facts.is_partial {
                (self, waiting)
            } else {
                self.response_accepted(head, facts)
            },
        }
    }

    /// The client after it took the head of a response from the bytes read,
    /// with the response.
    pub open spec fn response_accepted(self, head: ResponseHeadView, facts: ResponseFacts) -> (
        IoView,
        PolledView<ResponseView>,
    ) {
        let len = declared_len_spec(head.headers);
        let unknown = 200 <= head.status < 300 && len == 0;
        let status = head_read(self.res_status, unknown, chunked_spec(head.headers), len);
        let stream = head_taken(self.stream, facts.len);
        if !unknown && head.status == 101 {
            (
                IoView { stream, res_status: status, ..self },
                PolledView::Ready(ResponseView { head, body: crate::body::fresh(None) }, false),
            )
        } else {
            let b = body_built(status, stream);
            let next = IoView { stream: b.0, res_status: status, ..self };
            match b.3 {
                Err(e) => (next, failed_view(e)),
                Ok(_) => {
                    let body = BodyView {
                        origin_method: compress_method_spec(head.headers),
                        ..b.1
                    };
                    (
                        if body.is_end {
                            IoView { res_status: status.read_cleared(), has_sender: b.2, ..next }
                        } else {
                            IoView { has_sender: b.2, ..next }
                        },
                        PolledView::Ready(ResponseView { head, body }, b.2),
                    )
                },
            }
        }
    }
}

impl IoBuffer {
    /// Takes in bytes that were read from the connection, and looks at them.
    /// Returns their number.
    pub fn poll_read(&mut self, data: &[u8]) -> (r: Result<usize, ProtError>)
        ensures
            final(self)@ == old(self)@.read_polled(data@).0,
            r == old(self)@.read_polled(data@).1,
            final(self).ready_time() == old(self).ready_time(),
    {
        let n = self.send_stream.put(data);
        match self.send_stream.process_data() {
            Ok(_) => Ok(n),
            Err(e) => Err(e),
        }
    }

    /// Takes in all that a round of reading gave: the pieces read, in order,
    /// and whether the round ended because the peer has closed the connection.
    pub fn poll_read_all(&mut self, reads: &Vec<Vec<u8>>, closed: bool) -> (r: Result<
        Read,
        ProtError,
    >)
        ensures
            final(self)@ == old(self)@.all_read(pieces(reads@), closed, false).0,
            r == old(self)@.all_read(pieces(reads@), closed, false).1,
            final(self).ready_time() == old(self).ready_time(),
    {
        let mut i: usize = 0;
        let mut got = false;
        proof {
            assert(pieces(reads@).skip(0) =~= pieces(reads@));
        }
        while i < reads.len()
            invariant
                i <= reads@.len(),
                self.ready_time() == old(self).ready_time(),
                old(self)@.all_read(pieces(reads@), closed, false) == self@.all_read(
                    pieces(reads@).skip(i as int),
                    closed,
                    got,
                ),
            decreases reads@.len() - i,
        {
            let ghost before = self@;
            proof {
                let rest = pieces(reads@).skip(i as int);
                assert(rest.len() > 0);
                assert(rest[0] == reads@[i as int]@);
                assert(rest.skip(1) =~= pieces(reads@).skip(i + 1));
                assert(before.all_read(rest, closed, got) == match before.read_polled(rest[0]).1 {
                    Err(e) => (before.read_polled(rest[0]).0, Err::<Read, ProtError>(e)),
                    Ok(_) => before.read_polled(rest[0]).0.all_read(
                        rest.skip(1),
                        closed,
                        got || rest[0].len() > 0,
                    ),
                });
            }
            match self.poll_read(reads[i].as_slice()) {
                Err(e) => {
                    return Err(e);
                },
                Ok(_) => {
                    if reads[i].len() > 0 {
                        got = true;
                    }
                },
            }
            i = i + 1;
        }
        if closed {
            Ok(Read::Closed)
        } else if got {
            Ok(Read::Data)
        } else {
            Ok(Read::Pending)
        }
    }

    /// What a server is to do next, after a round of sending and a round of
    /// reading.
    pub fn poll_request(&self, wrote: Wrote, read: Read) -> (next: Next)
        ensures
            next == self@.request_next(wrote, read),
    {
        let idle = match wrote {
            Wrote::Ready(n) => n == 0,
            Wrote::Pending => false,
        };
        if idle && self.inner.is_active_close() && remaining(&self.write_buf) == 0 {
            return Next::Ended;
        }
        let held = self.inner.is_body_waiting && self.inner.req_status.is_read_header_end;
        match read {
            Read::Closed => {
                return Next::Ended;
            },
            Read::Pending => {
                if !held {
                    return Next::Pending;
                }
            },
            Read::Data => {},
        }
        if self.inner.req_status.is_read_header_end {
            Next::Body
        } else {
            Next::Head
        }
    }

    /// One step of handing on the body that is read: see [`IoView::dealt`].
    /// `channel` is what the channel of the body said when it was asked for
    /// room.
    pub fn do_deal_body(&mut self, is_req: bool, channel: Channel) -> (r: Result<Dealt, ProtError>)
        ensures
            final(self)@ == old(self)@.dealt(is_req, channel).0,
            dealt_view(r) == old(self)@.dealt(is_req, channel).1,
            final(self).ready_time() == old(self).ready_time(),
    {
        if !self.inner.has_sender {
            let closing = (self.inner.is_active_close() && remaining(&self.write_buf) == 0)
                || self.inner.is_delay_close;
            return Ok(Dealt::Done(closing));
        }
        let finished = if is_req {
            self.inner.req_status.is_read_finish
        } else {
            self.inner.res_status.is_read_finish
        };
        if finished {
            self.inner.is_body_waiting = false;
            return Ok(Dealt::Done(self.inner.is_delay_close));
        }
        match channel {
            Channel::Closed => Err(ProtError::Extension(ExtensionKind::SenderError)),
            Channel::Full => {
                self.inner.is_body_waiting = true;
                Ok(Dealt::Wait)
            },
            Channel::Room => {
                self.inner.is_body_waiting = false;
                self.take_body(is_req)
            },
        }
    }

    /// Takes note, in the status of the message that is read, that bytes of
    /// its body were handed on, and whether they were the last.
    fn note_read_finish(&mut self, is_req: bool, ended: bool)
        ensures
            final(self)@ == old(self)@.with_read_status(
                is_req,
                SendStatus { is_read_finish: ended, ..old(self)@.read_status(is_req) },
            ),
            final(self).ready_time() == old(self).ready_time(),
    {
        if is_req {
            self.inner.req_status.is_read_finish = ended;
        } else {
            self.inner.res_status.is_read_finish = ended;
        }
    }

    /// Takes the bytes of the body that have arrived from the read side.
    fn take_body(&mut self, is_req: bool) -> (r: Result<Dealt, ProtError>)
        ensures
            final(self)@ == old(self)@.body_taken(is_req).0,
            dealt_view(r) == old(self)@.body_taken(is_req).1,
            final(self).ready_time() == old(self).ready_time(),
    {
        match self.send_stream.take_data() {
            Err(e) => Err(e),
            Ok(read_data) => {
                let ended = self.send_stream.is_end() || self.inner.is_delay_close;
                if remaining(&read_data) == 0 && !ended {
                    return Ok(Dealt::Done(false));
                }
                self.note_read_finish(is_req, ended);
                Ok(Dealt::Send(ended, freeze(read_data)))
            },
        }
    }

    /// What a server is to do once the body is handed on.
    pub fn poll_request_body(&mut self) -> (next: Next)
        ensures
            final(self)@ == old(self)@.request_body_dealt().0,
            next == old(self)@.request_body_dealt().1,
            final(self).ready_time() == old(self).ready_time(),
    {
        if self.inner.req_status.is_read_finish {
            self.inner.req_status.clear_read();
            self.send_stream.set_end_headers(false);
        }
        // bytes that are left behind a body may be the head of the next request
        if self.inner.req_status.is_read_header_end || self.send_stream.unread_len() == 0 {
            Next::Pending
        } else {
            Next::Head
        }
    }

    /// Reads the head of a request from the bytes read: the parser looks at
    /// them, and [`Self::on_request_parsed`] does the rest.
    pub fn poll_request_head(&mut self) -> (r: Polled<RecvRequest>)
        ensures
            final(self)@ == old(self)@.request_parsed_step(request_parsed(old(self)@.stream.read)).0,
            polled_request_view(r) == old(self)@.request_parsed_step(
                request_parsed(old(self)@.stream.read),
            ).1,
            final(self).ready_time() == old(self).ready_time(),
    {
        let parsed = parse_request(self.send_stream.unread());
        self.on_request_parsed(parsed)
    }

    /// Takes in what the parser made of the bytes read: see
    /// [`IoView::request_parsed_step`].
    pub fn on_request_parsed(&mut self, parsed: ParsedRequest) -> (r: Polled<RecvRequest>)
        requires
            parsed matches ParsedRequest::Complete(_, facts) ==> facts.len <= old(
                self,
            )@.stream.read.len(),
        ensures
            final(self)@ == old(self)@.request_parsed_step(parsed@).0,
            polled_request_view(r) == old(self)@.request_parsed_step(parsed@).1,
            final(self).ready_time() == old(self).ready_time(),
    {
        if is_http2_magic(self.send_stream.unread()) {
            let rest = vstd::slice::slice_to_vec(
                vstd::slice::slice_subrange(
                    self.send_stream.unread(),
                    MAGIC_LEN,
                    self.send_stream.unread_len(),
                ),
            );
            proof {
                assert(rest@ =~= old(self)@.stream.read.skip(MAGIC_LEN as int));
            }
            return Polled::Failed(ProtError::ServerUpgradeHttp2(rest));
        }
        match parsed {
            ParsedRequest::Partial => Polled::Pending,
            ParsedRequest::Invalid => Polled::Failed(ProtError::Parse),
            ParsedRequest::Complete(head, facts) => {
                if facts.is_partial {
                    return Polled::Pending;
                }
                self.accept_request(head, facts)
            },
        }
    }

    /// Takes note of a request that was read: whether it asks to keep the
    /// connection open, and that it is to be answered.
    fn note_request(&mut self, keep: bool)
        ensures
            final(self)@ == (IoView {
                is_keep_alive: keep,
                unanswered: old(self)@.one_more(),
                ..old(self)@
            }),
            final(self).ready_time() == old(self).ready_time(),
    {
        self.inner.is_keep_alive = keep;
        if self.inner.unanswered < usize::MAX {
            self.inner.unanswered = self.inner.unanswered + 1;
        }
    }

    /// Takes note that the head of a request was read: the read side starts a
    /// new message behind the head, and the status of the request says what
    /// the head announces.
    fn begin_request(&mut self, head: &crate::message::RequestHead, facts: RequestFacts)
        requires
            facts.len <= old(self)@.stream.read.len(),
        ensures
            final(self)@ == old(self)@.request_begun(head@, facts),
            final(self).ready_time() == old(self).ready_time(),
    {
        self.send_stream.set_new_body();
        self.send_stream.consume(facts.len);
        let body_len = declared_len(&head.headers);
        let status = status_of_head(
            self.inner.req_status,
            !facts.is_nobody && body_len == 0,
            is_chunked(&head.headers),
            body_len,
        );
        self.inner.req_status = status;
        self.note_request(is_keep_alive(head.version.as_slice(), &head.headers));
    }

    /// Takes note of the body that was made for the request read: whether it
    /// is fed through a channel, and that nothing is left to read of the
    /// request if the body has ended.
    fn note_request_body(&mut self, ended: bool, fed: bool)
        ensures
            final(self)@ == old(self)@.request_body_noted(ended, fed),
            final(self).ready_time() == old(self).ready_time(),
    {
        if ended {
            self.inner.req_status.clear_read();
            self.send_stream.set_end_headers(false);
        }
        self.inner.has_sender = fed;
    }

    /// Takes the head of a request from the bytes read and makes the request.
    fn accept_request(&mut self, head: crate::message::RequestHead, facts: RequestFacts) -> (r:
        Polled<RecvRequest>)
        requires
            facts.len <= old(self)@.stream.read.len(),
        ensures
            final(self)@ == old(self)@.request_accepted(head@, facts).0,
            polled_request_view(r) == old(self)@.request_accepted(head@, facts).1,
            final(self).ready_time() == old(self).ready_time(),
    {
        let method = get_compress_method(&head.headers);
        self.begin_request(&head, facts);
        match build_body(&self.inner.req_status, &mut self.send_stream) {
            Err(e) => Polled::Failed(e),
            Ok((mut recv, fed)) => {
                recv.set_origin_compress_method(method);
                self.note_request_body(recv.is_end(), fed);
                Polled::Ready(Request { head, facts, body: recv }, fed)
            },
        }
    }

    /// What a client is to do next, after a round of sending and a round of
    /// reading.
    pub fn poll_response(&mut self, read: Read) -> (next: Next)
        ensures
            final(self)@ == old(self)@.response_next(read).0,
            next == old(self)@.response_next(read).1,
            final(self).ready_time() == old(self).ready_time(),
    {
        let held = self.inner.is_body_waiting && self.inner.res_status.is_read_header_end;
        if self.inner.is_delay_close && !held {
            return Next::Ended;
        }
        match read {
            Read::Pending => {
                if !held {
                    return Next::Pending;
                }
            },
            Read::Closed => {
                self.inner.is_delay_close = true;
            },
            Read::Data => {},
        }
        if self.inner.res_status.is_read_header_end {
            Next::Body
        } else {
            Next::Head
        }
    }

    /// What a client is to do once the body is handed on; `is_close` is what
    /// the handing on gave.
    pub fn poll_response_body(&mut self, is_close: bool) -> (next: Next)
        ensures
            final(self)@ == old(self)@.response_body_dealt(is_close).0,
            next == old(self)@.response_body_dealt(is_close).1,
            final(self).ready_time() == old(self).ready_time(),
    {
        if self.inner.res_status.is_read_finish {
            self.inner.res_status.clear_read();
        }
        if is_close {
            Next::Ended
        } else {
            Next::Pending
        }
    }

    /// Reads the head of a response from the bytes read: the parser looks at
    /// them, and [`Self::on_response_parsed`] does the rest.
    pub fn poll_response_head(&mut self) -> (r: Polled<RecvResponse>)
        ensures
            final(self)@ == old(self)@.response_parsed_step(
                response_parsed(old(self)@.stream.read),
            ).0,
            polled_response_view(r) == old(self)@.response_parsed_step(
                response_parsed(old(self)@.stream.read),
            ).1,
            final(self).ready_time() == old(self).ready_time(),
    {
        let parsed = parse_response(self.send_stream.unread());
        self.on_response_parsed(parsed)
    }

    /// Takes in what the parser made of the bytes read: see
    /// [`IoView::response_parsed_step`].
    pub fn on_response_parsed(&mut self, parsed: ParsedResponse) -> (r: Polled<RecvResponse>)
        requires
            parsed matches ParsedResponse::Complete(_, facts) ==> facts.len <= old(
                self,
            )@.stream.read.len(),
        ensures
            final(self)@ == old(self)@.response_parsed_step(parsed@).0,
            polled_response_view(r) == old(self)@.response_parsed_step(parsed@).1,
            final(self).ready_time() == old(self).ready_time(),
    {
        match parsed {
            ParsedResponse::Partial => if self.inner.is_delay_close {
                Polled::Ended
            } else {
                Polled::Pending
            },
            ParsedResponse::Invalid => Polled::Failed(ProtError::Parse),
            ParsedResponse::Complete(head, facts) => {
                if facts.is_partial {
                    if self.inner.is_delay_close {
                        return Polled::Ended;
                    } else {
                        return Polled::Pending;
                    }
                }
                self.accept_response(head, facts)
            },
        }
    }

    /// Takes note that the head of a response was read: the read side starts
    /// a new message behind the head, and the status of the response says
    /// what the head announces.
    fn begin_response(&mut self, head: &crate::message::ResponseHead, facts: ResponseFacts)
        requires
            facts.len <= old(self)@.stream.read.len(),
        ensures
            final(self)@ == (IoView {
                stream: head_taken(old(self)@.stream, facts.len),
                res_status: head_read(
                    old(self)@.res_status,
                    200 <= head.status < 300 && declared_len_spec(head@.headers) == 0,
                    chunked_spec(head@.headers),
                    declared_len_spec(head@.headers),
                ),
                ..old(self)@
            }),
            final(self).ready_time() == old(self).ready_time(),
    {
        self.send_stream.set_new_body();
        self.send_stream.consume(facts.len);
        let body_len = declared_len(&head.headers);
        let status = status_of_head(
            self.inner.res_status,
            200 <= head.status && head.status < 300 && body_len == 0,
            is_chunked(&head.headers),
            body_len,
        );
        self.inner.res_status = status;
    }

    /// Takes the head of a response from the bytes read and makes the
    /// response.
    fn accept_response(&mut self, head: crate::message::ResponseHead, facts: ResponseFacts) -> (r:
        Polled<RecvResponse>)
        requires
            facts.len <= old(self)@.stream.read.len(),
        ensures
            final(self)@ == old(self)@.response_accepted(head@, facts).0,
            polled_response_view(r) == old(self)@.response_accepted(head@, facts).1,
            final(self).ready_time() == old(self).ready_time(),
    {
        self.begin_response(&head, facts);
        if head.status == 101 {
            return Polled::Ready(Response { head, body: Body::empty() }, false);
        }
        let method = get_compress_method(&head.headers);
        match build_body(&self.inner.res_status, &mut self.send_stream) {
            Err(e) => Polled::Failed(e),
            Ok((mut recv, fed)) => {
                recv.set_origin_compress_method(method);
                if recv.is_end() {
                    self.inner.res_status.clear_read();
                }
                self.inner.has_sender = fed;
                Polled::Ready(Response { head, body: recv }, fed)
            },
        }
    }
}

impl IoView {
    /// What is to be done about the source behind the body of the response
    /// in front, and the connection after that body asked its semaphore;
    /// nothing without a response.
    pub open spec fn response_pull_ready(self) -> (IoView, PullAction) {
        if self.res_list.len() == 0 {
            (self, PullAction::Done)
        } else {
            let r = self.res_list[0];
            let p = r.body.primed().0.pull_ready();
            (
                IoView { res_list: self.res_list.update(0, ResponseView { body: p.0, ..r }), ..self },
                p.1,
            )
        }
    }

    /// The connection after the body of the response in front took in what a
    /// poll of its source gave, and what that body returns; nothing changes
    /// without a response.
    pub open spec fn response_pulled(self, polled: crate::body::model::PolledView) -> (
        IoView,
        Result<bool, ProtError>,
    ) {
        if self.res_list.len() == 0 {
            (self, Ok(false))
        } else {
            let r = self.res_list[0];
            let p = r.body.received(polled);
            (
                IoView { res_list: self.res_list.update(0, ResponseView { body: p.0, ..r }), ..self },
                p.1,
            )
        }
    }

    /// What is to be done about the source behind the body of the request in
    /// front, and the connection after that body asked its semaphore; nothing
    /// without a request.
    pub open spec fn request_pull_ready(self) -> (IoView, PullAction) {
        if self.req_list.len() == 0 {
            (self, PullAction::Done)
        } else {
            let r = self.req_list[0];
            let p = r.body.primed().0.pull_ready();
            (
                IoView { req_list: self.req_list.update(0, RequestView { body: p.0, ..r }), ..self },
                p.1,
            )
        }
    }

    /// The connection after the body of the request in front took in what a
    /// poll of its source gave, and what that body returns; nothing changes
    /// without a request.
    pub open spec fn request_pulled(self, polled: crate::body::model::PolledView) -> (
        IoView,
        Result<bool, ProtError>,
    ) {
        if self.req_list.len() == 0 {
            (self, Ok(false))
        } else {
            let r = self.req_list[0];
            let p = r.body.received(polled);
            (
                IoView { req_list: self.req_list.update(0, RequestView { body: p.0, ..r }), ..self },
                p.1,
            )
        }
    }
}

impl IoBuffer {
    /// Says what is to be done about the source behind the body of the
    /// response in front. The bytes that the body was made with go through
    /// its decode stage first, so that what the source gives comes behind
    /// them.
    pub fn response_source_ready(&mut self) -> (action: PullAction)
        ensures
            final(self)@ == old(self)@.response_pull_ready().0,
            action == old(self)@.response_pull_ready().1,
            final(self).ready_time() == old(self).ready_time(),
    {
        if self.inner.res_list.len() == 0 {
            return PullAction::Done;
        }
        let ghost list = self.inner.res_list@;
        let mut res = self.inner.res_list.remove(0);
        let _ = res.body.process_origin();
        let action = res.body.inner_poll_ready();
        let ghost after = response_view(res);
        self.inner.res_list.insert(0, res);
        proof {
            assert(responses_view(self.inner.res_list@) =~= responses_view(list).update(0, after));
            assert(responses_view(list)[0] == response_view(list[0]));
        }
        action
    }

    /// Hands what a poll of its source gave to the body of the response in
    /// front.
    pub fn response_source_feed(&mut self, polled: crate::body::Polled) -> (r: Result<
        bool,
        ProtError,
    >)
        ensures
            final(self)@ == old(self)@.response_pulled(polled@).0,
            r == old(self)@.response_pulled(polled@).1,
            final(self).ready_time() == old(self).ready_time(),
    {
        if self.inner.res_list.len() == 0 {
            return Ok(false);
        }
        let ghost list = self.inner.res_list@;
        let mut res = self.inner.res_list.remove(0);
        let r = res.body.inner_poll_read(polled);
        let ghost after = response_view(res);
        self.inner.res_list.insert(0, res);
        proof {
            assert(responses_view(self.inner.res_list@) =~= responses_view(list).update(0, after));
            assert(responses_view(list)[0] == response_view(list[0]));
        }
        r
    }

    /// Says what is to be done about the source behind the body of the
    /// request in front.
    pub fn request_source_ready(&mut self) -> (action: PullAction)
        ensures
            final(self)@ == old(self)@.request_pull_ready().0,
            action == old(self)@.request_pull_ready().1,
            final(self).ready_time() == old(self).ready_time(),
    {
        if self.inner.req_list.len() == 0 {
            return PullAction::Done;
        }
        let ghost list = self.inner.req_list@;
        let mut req = self.inner.req_list.remove(0);
        let _ = req.body.process_origin();
        let action = req.body.inner_poll_ready();
        let ghost after = request_view(req);
        self.inner.req_list.insert(0, req);
        proof {
            assert(requests_view(self.inner.req_list@) =~= requests_view(list).update(0, after));
            assert(requests_view(list)[0] == request_view(list[0]));
        }
        action
    }

    /// Hands what a poll of its source gave to the body of the request in
    /// front.
    pub fn request_source_feed(&mut self, polled: crate::body::Polled) -> (r: Result<
        bool,
        ProtError,
    >)
        ensures
            final(self)@ == old(self)@.request_pulled(polled@).0,
            r == old(self)@.request_pulled(polled@).1,
            final(self).ready_time() == old(self).ready_time(),
    {
        if self.inner.req_list.len() == 0 {
            return Ok(false);
        }
        let ghost list = self.inner.req_list@;
        let mut req = self.inner.req_list.remove(0);
        let r = req.body.inner_poll_read(polled);
        let ghost after = request_view(req);
        self.inner.req_list.insert(0, req);
        proof {
            assert(requests_view(self.inner.req_list@) =~= requests_view(list).update(0, after));
            assert(requests_view(list)[0] == request_view(list[0]));
        }
        r
    }
}

impl IoBuffer {
    /// Starts a new interval of the ceiling on the body of the response in
    /// front.
    pub fn response_source_refill(&mut self)
        ensures
            final(self)@ == if old(self)@.res_list.len() == 0 {
                old(self)@
            } else {
                IoView {
                    res_list: old(self)@.res_list.update(
                        0,
                        ResponseView {
                            body: old(self)@.res_list[0].body.refilled(),
                            ..old(self)@.res_list[0]
                        },
                    ),
                    ..old(self)@
                }
            },
            final(self).ready_time() == old(self).ready_time(),
    {
        if self.inner.res_list.len() == 0 {
            return ;
        }
        let ghost list = self.inner.res_list@;
        let mut res = self.inner.res_list.remove(0);
        res.body.refill_rate_limit();
        let ghost after = response_view(res);
        self.inner.res_list.insert(0, res);
        proof {
            assert(responses_view(self.inner.res_list@) =~= responses_view(list).update(0, after));
            assert(responses_view(list)[0] == response_view(list[0]));
        }
    }

    /// Starts a new interval of the ceiling on the body of the request in
    /// front.
    pub fn request_source_refill(&mut self)
        ensures
            final(self)@ == if old(self)@.req_list.len() == 0 {
                old(self)@
            } else {
                IoView {
                    req_list: old(self)@.req_list.update(
                        0,
                        RequestView {
                            body: old(self)@.req_list[0].body.refilled(),
                            ..old(self)@.req_list[0]
                        },
                    ),
                    ..old(self)@
                }
            },
            final(self).ready_time() == old(self).ready_time(),
    {
        if self.inner.req_list.len() == 0 {
            return ;
        }
        let ghost list = self.inner.req_list@;
        let mut req = self.inner.req_list.remove(0);
        req.body.refill_rate_limit();
        let ghost after = request_view(req);
        self.inner.req_list.insert(0, req);
        proof {
            assert(requests_view(self.inner.req_list@) =~= requests_view(list).update(0, after));
            assert(requests_view(list)[0] == request_view(list[0]));
        }
    }
}

impl IoBuffer {
    /// The number of responses that wait to be sent.
    pub fn response_count(&self) -> (n: usize)
        ensures
            n == self@.res_list.len(),
    {
        self.inner.res_list.len()
    }

    /// The number of requests that wait to be sent.
    pub fn request_count(&self) -> (n: usize)
        ensures
            n == self@.req_list.len(),
    {
        self.inner.req_list.len()
    }
}

} // verus!
