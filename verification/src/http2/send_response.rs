//! Messages on their way out of an HTTP/2 connection: each becomes a frame
//! with its head and frames with the bytes of its body.

use vstd::prelude::*;
use algorithm::buf::BinaryMut;
use crate::binary::{chunk, mut_bytes, new_mut};
use crate::body::model::BodyView;
use crate::body::Body;
use crate::consts::DEFAULT_MAX_FRAME_SIZE;
use crate::header::{is_no_content, list_view, no_content_spec, HeaderList, HeaderSeq};
use crate::http1::io::{
    request_view, response_view, RecvRequest, RecvResponse, RequestView, ResponseView,
};
use crate::http2::frame::{Flag, Frame, FrameHeader, FrameView, Kind, StreamIdentifier};

verus! {

/// The largest payload of a frame in effect: `max`, or the default where
/// `max` is zero.
pub open spec fn effective_max(max: usize) -> nat {
    if max == 0 {
        DEFAULT_MAX_FRAME_SIZE as nat
    } else {
        max as nat
    }
}

/// A frame with bytes of a body.
pub open spec fn data_frame(id: StreamIdentifier, payload: Seq<u8>, end_stream: bool) -> FrameView {
    FrameView::Data {
        header: FrameHeader { kind: Kind::Data, flag: Flag { end_stream, ..Flag::zero_spec() }, id },
        payload,
    }
}

/// The frames that carry `bytes` on the stream `id`: each holds at most `max`
/// bytes, all but the last hold exactly `max`, and the last ends the stream
/// if `end_stream` says so. No bytes give no frame, or an empty one that ends
/// the stream.
pub open spec fn data_frames(id: StreamIdentifier, bytes: Seq<u8>, max: nat, end_stream: bool) -> Seq<
    FrameView,
>
    decreases bytes.len(),
{
    if bytes.len() == 0 && !end_stream {
        Seq::empty()
    } else if bytes.len() <= max || max == 0 {
        seq![data_frame(id, bytes, end_stream)]
    } else {
        seq![data_frame(id, bytes.take(max as int), false)] + data_frames(
            id,
            bytes.skip(max as int),
            max,
            end_stream,
        )
    }
}

/// The bytes of a body that a run of frames holds, joined.
pub open spec fn payloads(frames: Seq<FrameView>) -> Seq<u8>
    decreases frames.len(),
{
    if frames.len() == 0 {
        Seq::empty()
    } else {
        frames[0].payload() + payloads(frames.skip(1))
    }
}

/// The frames of a run, each by its bytes.
pub open spec fn frames_view(frames: Seq<Frame>) -> Seq<FrameView> {
    Seq::new(frames.len(), |i: int| frames[i]@)
}

/// The number of frames that carry `len` bytes, `max` at most in each: `len`
/// divided by `max`, rounded up.
pub open spec fn frames_needed(len: nat, max: nat) -> nat
    recommends
        max > 0,
{
    ((len + max - 1) / max as int) as nat
}

/// The frames of a body hold its bytes and nothing else: joined, their
/// payloads are the bytes. No frame holds more than `max` bytes, only the
/// last frame can end the stream, and it does if the body has ended. The
/// bytes take as many frames as their number divided by `max`, rounded up.
pub proof fn lemma_data_frames(id: StreamIdentifier, bytes: Seq<u8>, max: nat, end_stream: bool)
    requires
        max > 0,
    ensures
        payloads(data_frames(id, bytes, max, end_stream)) == bytes,
        forall|i: int|
            0 <= i < data_frames(id, bytes, max, end_stream).len() ==> (#[trigger] data_frames(
                id,
                bytes,
                max,
                end_stream,
            )[i]).payload().len() <= max,
        forall|i: int|
            0 <= i < data_frames(id, bytes, max, end_stream).len() - 1 ==> !(#[trigger] data_frames(
                id,
                bytes,
                max,
                end_stream,
            )[i]).header().flag.end_stream,
        data_frames(id, bytes, max, end_stream).len() > 0 ==> data_frames(
            id,
            bytes,
            max,
            end_stream,
        ).last().header().flag.end_stream == end_stream,
        end_stream ==> data_frames(id, bytes, max, end_stream).len() > 0,
        bytes.len() > 0 ==> data_frames(id, bytes, max, end_stream).len() == frames_needed(
            bytes.len(),
            max,
        ),
    decreases bytes.len(),
{
    let all = data_frames(id, bytes, max, end_stream);
    if bytes.len() == 0 && !end_stream {
    } else if bytes.len() <= max {
        assert(all.skip(1) =~= Seq::<FrameView>::empty());
        assert(payloads(all.skip(1)) =~= Seq::<u8>::empty());
        assert(bytes + Seq::<u8>::empty() =~= bytes);
        if bytes.len() > 0 {
            assert(frames_needed(bytes.len(), max) == 1) by (nonlinear_arith)
                requires
                    0 < bytes.len() <= max,
            ;
        }
    } else {
        let rest = data_frames(id, bytes.skip(max as int), max, end_stream);
        lemma_data_frames(id, bytes.skip(max as int), max, end_stream);
        assert(all.skip(1) =~= rest);
        assert(bytes.take(max as int) + bytes.skip(max as int) =~= bytes);
        assert forall|i: int| 0 <= i < all.len() implies (#[trigger] all[i]).payload().len()
            <= max by {
            if i > 0 {
                assert(all[i] == rest[i - 1]);
            }
        }
        assert forall|i: int| 0 <= i < all.len() - 1 implies !(
        #[trigger] all[i]).header().flag.end_stream by {
            if i > 0 {
                assert(all[i] == rest[i - 1]);
            }
        }
        assert(rest.len() > 0);
        assert(all.last() == rest.last());
        let x = bytes.len() - 1;
        vstd::arithmetic::div_mod::lemma_div_plus_one(x, max as int);
        assert((bytes.len() + max - 1) == max + x);
        assert(((bytes.len() - max) as nat + max - 1) == x);
        vstd::arithmetic::div_mod::lemma_div_pos_is_pos(x, max as int);
    }
}

/// Cuts `bytes` into the frames that carry them: see [`data_frames`].
pub fn split_data(id: StreamIdentifier, bytes: &[u8], max: usize, end_stream: bool) -> (frames:
    Vec<Frame>)
    requires
        max > 0,
    ensures
        frames_view(frames@) == data_frames(id, bytes@, max as nat, end_stream),
{
    let mut frames: Vec<Frame> = Vec::new();
    let len = bytes.len();
    let mut at: usize = 0;
    proof {
        assert(bytes@.skip(0) =~= bytes@);
        assert(frames_view(frames@) =~= Seq::<FrameView>::empty());
    }
    while len - at > max
        invariant
            at <= len,
            len == bytes@.len(),
            max > 0,
            data_frames(id, bytes@, max as nat, end_stream) == frames_view(frames@) + data_frames(
                id,
                bytes@.skip(at as int),
                max as nat,
                end_stream,
            ),
        decreases len - at,
    {
        let payload = vstd::slice::slice_to_vec(vstd::slice::slice_subrange(bytes, at, at + max));
        let ghost before = frames_view(frames@);
        let ghost rest = bytes@.skip(at as int);
        frames.push(
            Frame::Data { header: FrameHeader::new(Kind::Data, Flag::zero(), id), payload },
        );
        proof {
            assert(payload@ =~= rest.take(max as int));
            assert(rest.skip(max as int) =~= bytes@.skip(at + max));
            assert(frames_view(frames@) =~= before + seq![data_frame(id, payload@, false)]);
            let tail = data_frames(id, rest.skip(max as int), max as nat, end_stream);
            assert(before + (seq![data_frame(id, payload@, false)] + tail) =~= (before
                + seq![data_frame(id, payload@, false)]) + tail);
        }
        at = at + max;
    }
    let ghost before = frames_view(frames@);
    if len - at > 0 || end_stream {
        let payload = vstd::slice::slice_to_vec(vstd::slice::slice_subrange(bytes, at, len));
        let flag = if end_stream {
            Flag::end_stream()
        } else {
            Flag::zero()
        };
        frames.push(Frame::Data { header: FrameHeader::new(Kind::Data, flag, id), payload });
        proof {
            assert(payload@ =~= bytes@.skip(at as int));
            assert(frames_view(frames@) =~= before + seq![data_frame(id, payload@, end_stream)]);
        }
    } else {
        proof {
            assert(before + Seq::<FrameView>::empty() =~= before);
        }
    }
    frames
}

/// `n` in decimal, most significant digit first, without leading zeros.
pub open spec fn decimal(n: nat) -> Seq<u8>
    decreases n,
{
    if n < 10 {
        seq![(48 + n) as u8]
    } else {
        decimal(n / 10).push((48 + n % 10) as u8)
    }
}

/// The digits of `n` in decimal.
pub fn decimal_encode(n: u16) -> (v: Vec<u8>)
    ensures
        v@ == decimal(n as nat),
{
    let mut low: Vec<u8> = Vec::new();
    let mut rest: u16 = n;
    while rest >= 10
        invariant
            decimal(n as nat) == decimal(rest as nat) + low@.reverse(),
        decreases rest,
    {
        let ghost before = low@;
        low.push(48 + (rest % 10) as u8);
        proof {
            assert(low@.reverse() =~= seq![(48 + rest % 10) as u8] + before.reverse());
            assert(decimal(rest as nat) =~= decimal((rest / 10) as nat) + seq![
                (48 + rest % 10) as u8,
            ]);
        }
        rest = rest / 10;
    }
    low.push(48 + rest as u8);
    proof {
        let pushed = low@;
        assert(pushed.reverse() =~= seq![pushed.last()] + pushed.drop_last().reverse());
        assert(decimal(n as nat) =~= low@.reverse());
    }
    let mut v: Vec<u8> = Vec::new();
    let mut i: usize = low.len();
    while i > 0
        invariant
            i <= low.len(),
            v@ == low@.reverse().take(low.len() - i),
        decreases i,
    {
        i = i - 1;
        v.push(low[i]);
        proof {
            assert(v@ =~= low@.reverse().take(low.len() - i));
        }
    }
    proof {
        assert(low@.reverse().take(low.len() as int) =~= low@.reverse());
    }
    v
}

/// The name `:status`.
pub open spec fn name_status() -> Seq<u8> {
    seq![58u8, 115, 116, 97, 116, 117, 115]
}

/// The name `:method`.
pub open spec fn name_method() -> Seq<u8> {
    seq![58u8, 109, 101, 116, 104, 111, 100]
}

/// The name `:path`.
pub open spec fn name_path() -> Seq<u8> {
    seq![58u8, 112, 97, 116, 104]
}

/// The fields of a response: its status, then its headers in order.
pub open spec fn response_fields(r: ResponseView) -> HeaderSeq {
    seq![(name_status(), decimal(r.head.status as nat))] + r.head.headers
}

/// The fields of a request: its method, its path, then its headers in order.
pub open spec fn request_fields(r: RequestView) -> HeaderSeq {
    seq![(name_method(), r.head.method), (name_path(), r.head.path)] + r.head.headers
}

/// Appends copies of the headers of `from` to `fields`.
fn append_headers(fields: &mut HeaderList, from: &HeaderList)
    ensures
        list_view(final(fields)@) == list_view(old(fields)@) + list_view(from@),
{
    let mut i: usize = 0;
    proof {
        assert(list_view(fields@) =~= list_view(old(fields)@) + list_view(from@).take(0));
    }
    while i < from.len()
        invariant
            i <= from@.len(),
            list_view(fields@) == list_view(old(fields)@) + list_view(from@).take(i as int),
        decreases from@.len() - i,
    {
        let ghost before = list_view(fields@);
        let name = from[i].0.clone();
        let value = from[i].1.clone();
        fields.push((name, value));
        proof {
            assert(list_view(fields@) =~= before.push((from@[i as int].0@, from@[i as int].1@)));
            assert(list_view(from@).take(i + 1) =~= list_view(from@).take(i as int).push(
                list_view(from@)[i as int],
            ));
            assert(list_view(fields@) =~= list_view(old(fields)@) + list_view(from@).take(i + 1));
        }
        i = i + 1;
    }
    proof {
        assert(list_view(from@).take(from@.len() as int) =~= list_view(from@));
    }
}

/// A frame that holds fields.
pub open spec fn headers_frame(id: StreamIdentifier, fields: HeaderSeq, end_stream: bool) -> FrameView {
    FrameView::Headers {
        header: FrameHeader {
            kind: Kind::Headers,
            flag: Flag { end_headers: true, end_stream, ack: false },
            id,
        },
        fields,
    }
}

/// A frame that promises the stream `promised_id` on the stream `id`.
pub open spec fn push_frame(
    id: StreamIdentifier,
    promised_id: StreamIdentifier,
    fields: HeaderSeq,
) -> FrameView {
    FrameView::PushPromise {
        header: FrameHeader {
            kind: Kind::PushPromise,
            flag: Flag { end_headers: true, end_stream: false, ack: false },
            id,
        },
        promised_id,
        fields,
    }
}

/// What one pipeline step of the body of a message gives to send: the body
/// afterwards, the bytes, and whether the stream ends with them. A step that
/// fails gives no bytes and ends the body, and the stream with it.
pub open spec fn body_stepped(body: BodyView) -> (BodyView, Seq<u8>, bool) {
    let p = body.processed();
    let after = if p.1 is Ok {
        p.0.drained_out()
    } else {
        p.0
    };
    let bytes = if p.1 is Ok {
        p.0.out
    } else {
        Seq::empty()
    };
    (after, bytes, after.is_end || p.1 is Err)
}

/// What the body of a message gives to send, and the body afterwards: the
/// output of one pipeline step, cut into frames, the last of which ends the
/// stream if the body has ended.
pub open spec fn body_frames(body: BodyView, id: StreamIdentifier, max: usize) -> (
    BodyView,
    Seq<FrameView>,
    bool,
) {
    let s = body_stepped(body);
    (s.0, data_frames(id, s.1, effective_max(max), s.2), s.2)
}

/// Runs the body one pipeline step: see [`body_stepped`]. Returns whether the
/// stream ends, and the bytes.
fn step_body(body: &mut Body) -> (r: (bool, BinaryMut))
    ensures
        final(body)@ == body_stepped(old(body)@).0,
        mut_bytes(r.1) == body_stepped(old(body)@).1,
        r.0 == body_stepped(old(body)@).2,
{
    let mut binary = new_mut();
    let res = body.poll_encode_write(&mut binary);
    let ended = body.is_end() || res.is_err();
    proof {
        if res is Ok {
            assert(mut_bytes(binary) =~= old(body)@.processed().0.out);
        } else {
            assert(mut_bytes(binary) =~= Seq::<u8>::empty());
        }
    }
    (ended, binary)
}

/// The largest payload of a frame in effect.
fn frame_limit(max: usize) -> (limit: usize)
    ensures
        limit == effective_max(max),
        limit > 0,
{
    if max == 0 {
        DEFAULT_MAX_FRAME_SIZE
    } else {
        max
    }
}

/// Runs the body one pipeline step and makes frames of its output: see
/// [`body_frames`].
pub fn encode_body_frames(body: &mut Body, id: StreamIdentifier, max: usize) -> (r: (
    bool,
    Vec<Frame>,
))
    ensures
        final(body)@ == body_frames(old(body)@, id, max).0,
        frames_view(r.1@) == body_frames(old(body)@, id, max).1,
        r.0 == body_frames(old(body)@, id, max).2,
{
    let (ended, binary) = step_body(body);
    (ended, split_data(id, chunk(&binary), frame_limit(max), ended))
}

/// The frames with the head of a response. One that is pushed is promised on
/// its stream and goes on on the promised one. The frame with the fields ends
/// the stream if `ended` says so.
pub open spec fn response_head_frames(
    id: StreamIdentifier,
    push_id: Option<StreamIdentifier>,
    fields: HeaderSeq,
    ended: bool,
) -> Seq<FrameView> {
    match push_id {
        Some(promised) => seq![
            push_frame(id, promised, fields),
            headers_frame(promised, fields, ended),
        ],
        None => seq![headers_frame(id, fields, ended)],
    }
}

/// The stream on which a message goes on once its head is sent.
pub open spec fn stream_after_head(id: StreamIdentifier, push_id: Option<StreamIdentifier>) -> StreamIdentifier {
    match push_id {
        Some(promised) => promised,
        None => id,
    }
}

/// The frames with which a message starts: the head, then the bytes that the
/// first pipeline step of the body gave. Where the body ended without giving
/// a byte, the frame with the fields ends the stream and no frame with bytes
/// follows it.
pub open spec fn first_frames(
    id: StreamIdentifier,
    push_id: Option<StreamIdentifier>,
    fields: HeaderSeq,
    bytes: Seq<u8>,
    ended: bool,
    max: usize,
) -> Seq<FrameView> {
    if ended && bytes.len() == 0 {
        response_head_frames(id, push_id, fields, true)
    } else {
        response_head_frames(id, push_id, fields, false) + data_frames(
            stream_after_head(id, push_id),
            bytes,
            effective_max(max),
            ended,
        )
    }
}

/// Makes the frames with the head of a message: see [`response_head_frames`].
fn make_head_frames(
    id: StreamIdentifier,
    push_id: Option<StreamIdentifier>,
    fields: HeaderList,
    ended: bool,
) -> (frames: Vec<Frame>)
    ensures
        frames_view(frames@) == response_head_frames(id, push_id, list_view(fields@), ended),
{
    let mut result: Vec<Frame> = Vec::new();
    let flag = Flag { end_headers: true, end_stream: ended, ack: false };
    match push_id {
        Some(promised) => {
            let mut copy: HeaderList = Vec::new();
            append_headers(&mut copy, &fields);
            proof {
                assert(list_view(copy@) =~= list_view(fields@));
            }
            result.push(
                Frame::PushPromise {
                    header: FrameHeader::new(Kind::PushPromise, Flag::end_headers(), id),
                    promised_id: promised,
                    fields: copy,
                },
            );
            result.push(
                Frame::Headers { header: FrameHeader::new(Kind::Headers, flag, promised), fields },
            );
        },
        None => {
            result.push(
                Frame::Headers { header: FrameHeader::new(Kind::Headers, flag, id), fields },
            );
        },
    }
    proof {
        assert(frames_view(result@) =~= response_head_frames(
            id,
            push_id,
            list_view(fields@),
            ended,
        ));
    }
    result
}

/// Makes the frames with which a message starts: see [`first_frames`].
fn make_first_frames(
    id: StreamIdentifier,
    push_id: Option<StreamIdentifier>,
    fields: HeaderList,
    bytes: &[u8],
    ended: bool,
    max: usize,
) -> (frames: Vec<Frame>)
    ensures
        frames_view(frames@) == first_frames(id, push_id, list_view(fields@), bytes@, ended, max),
{
    if ended && bytes.len() == 0 {
        return make_head_frames(id, push_id, fields, true);
    }
    let mut result = make_head_frames(id, push_id, fields, false);
    let after = match push_id {
        Some(promised) => promised,
        None => id,
    };
    let mut frames = split_data(after, bytes, frame_limit(max), ended);
    let ghost head = frames_view(result@);
    let ghost body = frames_view(frames@);
    result.append(&mut frames);
    proof {
        assert(frames_view(result@) =~= head + body);
    }
    result
}

/// A response on its way out.
pub struct SendResponse {
    /// The stream that carries the response.
    pub stream_id: StreamIdentifier,
    /// The stream to promise, if the response is pushed.
    pub push_id: Option<StreamIdentifier>,
    /// The response.
    pub response: RecvResponse,
    /// Whether the head is sent.
    pub encode_header: bool,
    /// Whether the body was asked for bytes.
    pub encode_body: bool,
    /// Whether the body had ended when it was last looked at.
    pub is_end_stream: bool,
    /// Whether a frame that ends the stream is sent.
    pub end_sent: bool,
    /// The method of the request that is answered.
    pub method: Vec<u8>,
}

/// A response on its way out, by what it holds.
pub struct SendResponseView {
    pub stream_id: StreamIdentifier,
    pub push_id: Option<StreamIdentifier>,
    pub response: ResponseView,
    pub encode_header: bool,
    pub encode_body: bool,
    pub is_end_stream: bool,
    pub end_sent: bool,
    pub method: Seq<u8>,
}

impl View for SendResponse {
    type V = SendResponseView;

    open spec fn view(&self) -> SendResponseView {
        SendResponseView {
            stream_id: self.stream_id,
            push_id: self.push_id,
            response: response_view(self.response),
            encode_header: self.encode_header,
            encode_body: self.encode_body,
            is_end_stream: self.is_end_stream,
            end_sent: self.end_sent,
            method: self.method@,
        }
    }
}

impl SendResponseView {
    /// The frames that the response gives to send now, and the response
    /// afterwards. Nothing, once a frame that ends the stream is made. The
    /// first time, the head: it ends the stream where the headers announce a
    /// body of no bytes, and the body is then not asked; else the body runs a
    /// pipeline step and the head is followed by what the step gave, as
    /// [`first_frames`] says. After that, what a step of the body gives.
    pub open spec fn frames_encoded(self, max: usize) -> (SendResponseView, Seq<FrameView>) {
        let fields = response_fields(self.response);
        let id = stream_after_head(self.stream_id, self.push_id);
        if self.encode_header {
            if self.end_sent {
                (self, Seq::empty())
            } else {
                let b = body_frames(self.response.body, self.stream_id, max);
                (
                    SendResponseView {
                        response: ResponseView { body: b.0, ..self.response },
                        encode_body: true,
                        is_end_stream: b.2,
                        end_sent: b.2,
                        ..self
                    },
                    b.1,
                )
            }
        } else if no_content_spec(self.response.head.headers) {
            (
                SendResponseView {
                    stream_id: id,
                    encode_header: true,
                    is_end_stream: true,
                    end_sent: true,
                    ..self
                },
                response_head_frames(self.stream_id, self.push_id, fields, true),
            )
        } else {
            let b = body_stepped(self.response.body);
            (
                SendResponseView {
                    stream_id: id,
                    response: ResponseView { body: b.0, ..self.response },
                    encode_header: true,
                    encode_body: true,
                    is_end_stream: b.2,
                    end_sent: b.2,
                    ..self
                },
                first_frames(self.stream_id, self.push_id, fields, b.1, b.2, max),
            )
        }
    }
}

impl SendResponse {
    pub fn new(
        stream_id: StreamIdentifier,
        push_id: Option<StreamIdentifier>,
        response: RecvResponse,
        method: Vec<u8>,
        is_end_stream: bool,
    ) -> (s: SendResponse)
        ensures
            s@ == (SendResponseView {
                stream_id,
                push_id,
                response: response_view(response),
                encode_header: false,
                encode_body: false,
                is_end_stream,
                end_sent: false,
                method: method@,
            }),
    {
        SendResponse {
            stream_id,
            push_id,
            response,
            encode_header: false,
            encode_body: false,
            is_end_stream,
            end_sent: false,
            method,
        }
    }

    /// The fields of the response, and whether its headers announce a body of
    /// no bytes.
    pub fn encode_headers(response: &RecvResponse) -> (r: (HeaderList, bool))
        ensures
            list_view(r.0@) == response_fields(response_view(*response)),
            r.1 == no_content_spec(response_view(*response).head.headers),
    {
        let mut headers: HeaderList = Vec::new();
        let name: [u8; 7] = [58, 115, 116, 97, 116, 117, 115];
        headers.push((vstd::slice::slice_to_vec(&name), decimal_encode(response.head.status)));
        proof {
            assert(name@ =~= name_status());
            assert(list_view(headers@) =~= seq![
                (name_status(), decimal(response.head.status as nat)),
            ]);
        }
        append_headers(&mut headers, &response.head.headers);
        (headers, is_no_content(&response.head.headers))
    }

    /// Makes the frames that the response gives to send now: see
    /// [`SendResponseView::frames_encoded`]. Returns whether the stream is
    /// ended, and the frames.
    pub fn encode_frames(&mut self, max_frame_size: usize) -> (r: (bool, Vec<Frame>))
        ensures
            final(self)@ == old(self)@.frames_encoded(max_frame_size).0,
            frames_view(r.1@) == old(self)@.frames_encoded(max_frame_size).1,
            r.0 == final(self)@.end_sent,
    {
        if self.encode_header {
            if self.end_sent {
                let none: Vec<Frame> = Vec::new();
                proof {
                    assert(frames_view(none@) =~= Seq::<FrameView>::empty());
                }
                return (true, none);
            }
            self.encode_body = true;
            let (ended, frames) = encode_body_frames(
                &mut self.response.body,
                self.stream_id,
                max_frame_size,
            );
            self.is_end_stream = ended;
            self.end_sent = ended;
            return (ended, frames);
        }
        let (fields, announced) = Self::encode_headers(&self.response);
        let id = self.stream_id;
        self.encode_header = true;
        if let Some(promised) = self.push_id {
            self.stream_id = promised;
        }
        if announced {
            self.is_end_stream = true;
            self.end_sent = true;
            return (true, make_head_frames(id, self.push_id, fields, true));
        }
        self.encode_body = true;
        let (ended, binary) = step_body(&mut self.response.body);
        self.is_end_stream = ended;
        self.end_sent = ended;
        (ended, make_first_frames(id, self.push_id, fields, chunk(&binary), ended, max_frame_size))
    }
}

/// The handle with which the answer to a request is handed to the control of
/// its connection.
#[derive(Debug, Clone)]
pub struct SendControl {
    /// The stream of the request.
    pub stream_id: StreamIdentifier,
    /// The method of the request.
    pub method: Vec<u8>,
}

impl SendControl {
    pub fn new(stream_id: StreamIdentifier, method: Vec<u8>) -> (s: SendControl)
        ensures
            s.stream_id == stream_id,
            s.method == method,
    {
        SendControl { stream_id, method }
    }

    /// The response with the stream it is to go out on: what is sent to the
    /// control.
    pub fn send_response(&self, res: RecvResponse) -> (r: (StreamIdentifier, RecvResponse))
        ensures
            r.0 == self.stream_id,
            r.1 == res,
    {
        (self.stream_id, res)
    }
}

/// A request on its way out.
pub struct SendRequest {
    /// The stream that carries the request.
    pub stream_id: StreamIdentifier,
    /// The request.
    pub request: RecvRequest,
    /// Whether the head is sent.
    pub encode_header: bool,
    /// Whether the body was asked for bytes.
    pub encode_body: bool,
    /// Whether the body had ended when it was last looked at.
    pub is_end_stream: bool,
    /// Whether a frame that ends the stream is sent.
    pub end_sent: bool,
}

/// A request on its way out, by what it holds.
pub struct SendRequestView {
    pub stream_id: StreamIdentifier,
    pub request: RequestView,
    pub encode_header: bool,
    pub encode_body: bool,
    pub is_end_stream: bool,
    pub end_sent: bool,
}

impl View for SendRequest {
    type V = SendRequestView;

    open spec fn view(&self) -> SendRequestView {
        SendRequestView {
            stream_id: self.stream_id,
            request: request_view(self.request),
            encode_header: self.encode_header,
            encode_body: self.encode_body,
            is_end_stream: self.is_end_stream,
            end_sent: self.end_sent,
        }
    }
}

impl SendRequestView {
    /// The frames that the request gives to send now, and the request
    /// afterwards. Nothing, once a frame that ends the stream is made. The
    /// first time, the head: it ends the stream where the headers announce a
    /// body of no bytes, and the body is then not asked; else the body runs a
    /// pipeline step and the head is followed by what the step gave, as
    /// [`first_frames`] says. After that, what a step of the body gives.
    pub open spec fn frames_encoded(self, max: usize) -> (SendRequestView, Seq<FrameView>) {
        let fields = request_fields(self.request);
        if self.encode_header {
            if self.end_sent {
                (self, Seq::empty())
            } else {
                let b = body_frames(self.request.body, self.stream_id, max);
                (
                    SendRequestView {
                        request: RequestView { body: b.0, ..self.request },
                        encode_body: true,
                        is_end_stream: b.2,
                        end_sent: b.2,
                        ..self
                    },
                    b.1,
                )
            }
        } else if no_content_spec(self.request.head.headers) {
            (
                SendRequestView {
                    encode_header: true,
                    is_end_stream: true,
                    end_sent: true,
                    ..self
                },
                response_head_frames(self.stream_id, None, fields, true),
            )
        } else {
            let b = body_stepped(self.request.body);
            (
                SendRequestView {
                    request: RequestView { body: b.0, ..self.request },
                    encode_header: true,
                    encode_body: true,
                    is_end_stream: b.2,
                    end_sent: b.2,
                    ..self
                },
                first_frames(self.stream_id, None, fields, b.1, b.2, max),
            )
        }
    }
}

impl SendRequest {
    pub fn new(stream_id: StreamIdentifier, request: RecvRequest, is_end_stream: bool) -> (s:
        SendRequest)
        ensures
            s@ == (SendRequestView {
                stream_id,
                request: request_view(request),
                encode_header: false,
                encode_body: false,
                is_end_stream,
                end_sent: false,
            }),
    {
        SendRequest {
            stream_id,
            request,
            encode_header: false,
            encode_body: false,
            is_end_stream,
            end_sent: false,
        }
    }

    /// The fields of the request, and whether its headers announce a body of
    /// no bytes.
    pub fn encode_headers(request: &RecvRequest) -> (r: (HeaderList, bool))
        ensures
            list_view(r.0@) == request_fields(request_view(*request)),
            r.1 == no_content_spec(request_view(*request).head.headers),
    {
        let mut headers: HeaderList = Vec::new();
        let method: [u8; 7] = [58, 109, 101, 116, 104, 111, 100];
        let path: [u8; 5] = [58, 112, 97, 116, 104];
        headers.push((vstd::slice::slice_to_vec(&method), request.head.method.clone()));
        headers.push((vstd::slice::slice_to_vec(&path), request.head.path.clone()));
        proof {
            assert(method@ =~= name_method());
            assert(path@ =~= name_path());
            assert(list_view(headers@) =~= seq![
                (name_method(), request.head.method@),
                (name_path(), request.head.path@),
            ]);
        }
        append_headers(&mut headers, &request.head.headers);
        (headers, is_no_content(&request.head.headers))
    }

    /// Makes the frames that the request gives to send now: see
    /// [`SendRequestView::frames_encoded`]. Returns whether the stream is
    /// ended, and the frames.
    pub fn encode_frames(&mut self, max_frame_size: usize) -> (r: (bool, Vec<Frame>))
        ensures
            final(self)@ == old(self)@.frames_encoded(max_frame_size).0,
            frames_view(r.1@) == old(self)@.frames_encoded(max_frame_size).1,
            r.0 == final(self)@.end_sent,
    {
        if self.encode_header {
            if self.end_sent {
                let none: Vec<Frame> = Vec::new();
                proof {
                    assert(frames_view(none@) =~= Seq::<FrameView>::empty());
                }
                return (true, none);
            }
            self.encode_body = true;
            let (ended, frames) = encode_body_frames(
                &mut self.request.body,
                self.stream_id,
                max_frame_size,
            );
            self.is_end_stream = ended;
            self.end_sent = ended;
            return (ended, frames);
        }
        let (fields, announced) = Self::encode_headers(&self.request);
        self.encode_header = true;
        if announced {
            self.is_end_stream = true;
            self.end_sent = true;
            return (true, make_head_frames(self.stream_id, None, fields, true));
        }
        self.encode_body = true;
        let (ended, binary) = step_body(&mut self.request.body);
        self.is_end_stream = ended;
        self.end_sent = ended;
        (
            ended,
            make_first_frames(self.stream_id, None, fields, chunk(&binary), ended, max_frame_size),
        )
    }
}

/// The bytes that a stream sends are the bytes of its body, each once and in
/// order: the frames that a body gives to send hold, joined, the output of
/// its pipeline step; none holds more than the largest payload; and a frame
/// ends the stream only if it is the last, which does so exactly if the body
/// has ended.
pub proof fn lemma_body_frames(body: BodyView, id: StreamIdentifier, max: usize)
    ensures
        ({
            let b = body_frames(body, id, max);
            &&& payloads(b.1) == if body.processed().1 is Ok {
                body.processed().0.out
            } else {
                Seq::empty()
            }
            &&& forall|i: int| 0 <= i < b.1.len() ==> (#[trigger] b.1[i]).payload().len()
                <= effective_max(max)
            &&& forall|i: int| 0 <= i < b.1.len() - 1 ==> !(#[trigger] b.1[i]).header().flag.end_stream
            &&& b.2 ==> b.1.len() > 0 && b.1.last().header().flag.end_stream
            &&& !b.2 ==> forall|i: int| 0 <= i < b.1.len() ==> !(#[trigger] b.1[i]).header().flag.end_stream
        }),
{
    let p = body.processed();
    let bytes = if p.1 is Ok {
        p.0.out
    } else {
        Seq::empty()
    };
    let b = body_frames(body, id, max);
    lemma_data_frames(id, bytes, effective_max(max), b.2);
}

/// The frames with which a message starts hold the bytes that its body gave
/// and no others, and exactly the last of them ends the stream, if the body
/// has ended. A body that ended without giving a byte adds no frame to the
/// head: the frame with the fields then ends the stream.
pub proof fn lemma_first_frames(
    id: StreamIdentifier,
    push_id: Option<StreamIdentifier>,
    fields: HeaderSeq,
    bytes: Seq<u8>,
    ended: bool,
    max: usize,
)
    ensures
        ({
            let f = first_frames(id, push_id, fields, bytes, ended, max);
            let h = response_head_frames(id, push_id, fields, ended && bytes.len() == 0);
            &&& f.len() >= h.len() > 0
            &&& f.take(h.len() as int) == h
            &&& payloads(f) == bytes
            &&& f.last().header().flag.end_stream == ended
            &&& forall|i: int| 0 <= i < f.len() - 1 ==> !(#[trigger] f[i]).header().flag.end_stream
            &&& ended && bytes.len() == 0 ==> f == h
        }),
{
    let f = first_frames(id, push_id, fields, bytes, ended, max);
    let h = response_head_frames(id, push_id, fields, ended && bytes.len() == 0);
    let d = data_frames(stream_after_head(id, push_id), bytes, effective_max(max), ended);
    lemma_data_frames(stream_after_head(id, push_id), bytes, effective_max(max), ended);
    lemma_payloads_after_head(h, d);
    if ended && bytes.len() == 0 {
        assert(f == h);
        assert(f.take(h.len() as int) =~= h);
        lemma_payloads_after_head(h, Seq::empty());
        assert(h + Seq::<FrameView>::empty() =~= h);
        assert(payloads(Seq::<FrameView>::empty()) =~= Seq::<u8>::empty());
    } else {
        assert(f == h + d);
        assert(f.take(h.len() as int) =~= h);
        assert forall|i: int| 0 <= i < f.len() - 1 implies !(#[trigger] f[i]).header().flag.end_stream by {
            if i >= h.len() {
                assert(f[i] == d[i - h.len()]);
            }
        }
        if d.len() > 0 {
            assert(f.last() == d.last());
        }
    }
}

/// Frames without bytes in front of others add nothing to the bytes held.
proof fn lemma_payloads_after_head(head: Seq<FrameView>, rest: Seq<FrameView>)
    requires
        forall|i: int| 0 <= i < head.len() ==> (#[trigger] head[i]).payload().len() == 0,
    ensures
        payloads(head + rest) == payloads(rest),
    decreases head.len(),
{
    if head.len() == 0 {
        assert(head + rest =~= rest);
    } else {
        assert((head + rest).skip(1) =~= head.skip(1) + rest);
        lemma_payloads_after_head(head.skip(1), rest);
        assert((head + rest)[0] == head[0]);
        assert(head[0].payload() + payloads(rest) =~= payloads(rest));
    }
}

} // verus!
