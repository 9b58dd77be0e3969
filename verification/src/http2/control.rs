//! The control of an HTTP/2 connection: it keeps the streams that are
//! received, hands out the messages whose heads are complete in the order in
//! which they became complete, and queues what is to be sent.

use vstd::prelude::*;
use std::collections::HashMap;
use algorithm::buf::Binary;
use crate::consts::DEFAULT_INITIAL_WINDOW_SIZE;
use crate::body::model::{PolledView, PullAction};
use crate::body::source::Channel;
use crate::error::{ExtensionKind, ProtError};
use crate::http1::io::{
    request_view, response_view, RecvRequest, RecvResponse, RequestView, ResponseView,
};
use crate::http2::codec::Codec;
use crate::http2::frame::{
    Flag, Frame, FrameHeader, FrameView, Kind, Settings, StreamIdentifier, FLOW_CONTROL_ERROR,
    NO_ERROR, PROTOCOL_ERROR,
};
use crate::http2::inner_stream::{InnerStream, InnerStreamView};
use crate::http2::priority_queue::{drained, lemma_drained_push, PriorityQueue, QueueView};
use crate::http2::send_response::{
    frames_view, SendControl, SendRequest, SendRequestView, SendResponse, SendResponseView,
};
use crate::http2::state::{
    goaway_frame, pong_frame, settings_frame, Handshake, StateGoAway, StateHandshake,
    StatePingPong, StateSettings,
};

verus! {

/// The settings of a connection that hold once the handshake is over.
#[derive(Debug, Clone, Copy, PartialEq, Eq, Structural)]
pub struct ControlConfig {
    /// The number of the next stream that this end opens.
    pub next_stream_id: StreamIdentifier,
    /// The number of streams that this end may have open at first.
    pub initial_max_send_streams: usize,
    /// The number of bytes that one round of sending may take from the
    /// queue.
    pub max_send_buffer_size: usize,
    /// The time, in milliseconds, for which a stream that was reset is
    /// remembered.
    pub reset_stream_duration: u64,
    /// The number of reset streams that are remembered.
    pub reset_stream_max: usize,
    /// The number of streams that the peer may reset.
    pub remote_reset_stream_max: usize,
    /// The settings of the peer.
    pub settings: Settings,
}

impl ControlConfig {
    /// The window that the peer gives a new stream: the one it declared, or
    /// 65,535 bytes.
    pub open spec fn initial_window_size(self) -> u32 {
        match self.settings.initial_window_size {
            Some(size) => size,
            None => DEFAULT_INITIAL_WINDOW_SIZE,
        }
    }

    /// Takes the settings that the peer declared.
    pub fn apply_remote_settings(&mut self, settings: &Settings)
        ensures
            *final(self) == (ControlConfig { settings: *settings, ..*old(self) }),
    {
        self.settings = *settings;
    }

    /// The window that the peer gives a new stream: the one it declared, or
    /// 65,535 bytes.
    pub fn get_initial_window_size(&self) -> (size: u32)
        ensures
            size == self.initial_window_size(),
    {
        match self.settings.initial_window_size() {
            Some(size) => size,
            None => DEFAULT_INITIAL_WINDOW_SIZE,
        }
    }
}

/// The farewell of the peer: the last stream it took up, and its reason.
#[derive(Debug, Clone, Copy, PartialEq, Eq, Structural)]
pub struct PeerGoAway {
    pub last_stream_id: StreamIdentifier,
    pub reason: u32,
}

/// What a [`Control`] holds.
pub struct ControlView {
    /// The streams that are received, each under its number.
    pub streams: Map<StreamIdentifier, InnerStreamView>,
    /// The streams whose heads are complete and whose messages are not
    /// handed out, in the order in which they became complete.
    pub ready_queue: Seq<StreamIdentifier>,
    /// The largest number of a stream that was seen.
    pub last_stream_id: StreamIdentifier,
    /// The frames that wait to be sent.
    pub send: QueueView,
    /// The responses on their way out.
    pub responses: Seq<SendResponseView>,
    /// The requests on their way out.
    pub requests: Seq<SendRequestView>,
    /// The handshake.
    pub handshake: StateHandshake,
    /// The exchange of settings.
    pub setting: StateSettings,
    /// The farewell of this end that waits to be sent.
    pub goaway: Option<FrameView>,
    /// The reason of the last farewell of this end.
    pub goaway_reason: u32,
    /// The ping that waits for its answer.
    pub ping: StatePingPong,
    /// The farewell of the peer.
    pub error: Option<PeerGoAway>,
    /// The bytes of bodies that the peer may still send on the connection.
    pub recv_window: u32,
    /// The stream whose block of headers is begun and not ended: its
    /// continuation must be the next frame.
    pub partial: Option<StreamIdentifier>,
    /// The settings.
    pub config: ControlConfig,
}

/// The streams of a table, each by what it holds.
pub open spec fn streams_view(streams: Map<StreamIdentifier, InnerStream>) -> Map<
    StreamIdentifier,
    InnerStreamView,
> {
    Map::new(|id: StreamIdentifier| streams.contains_key(id), |id: StreamIdentifier| streams[id]@)
}

pub open spec fn send_responses_view(list: Seq<SendResponse>) -> Seq<SendResponseView> {
    Seq::new(list.len(), |i: int| list[i]@)
}

pub open spec fn send_requests_view(list: Seq<SendRequest>) -> Seq<SendRequestView> {
    Seq::new(list.len(), |i: int| list[i]@)
}

/// The larger of two numbers of streams.
pub open spec fn larger(a: StreamIdentifier, b: StreamIdentifier) -> StreamIdentifier {
    if a >= b {
        a
    } else {
        b
    }
}

impl ControlView {
    /// Whether each stream is kept under its own number.
    pub open spec fn wf(self) -> bool {
        forall|id: StreamIdentifier| #[trigger]
            self.streams.contains_key(id) ==> self.streams[id].id == id
    }

    /// The control after a frame of a stream came, and what became of the
    /// frame: nothing for a frame of the connection itself; an error for a
    /// frame out of order, which changes nothing; else the frame is taken in
    /// by its stream, which is new if its number was not seen, and a frame
    /// that completes the head puts the stream in line to be handed out,
    /// once.
    pub open spec fn frame_received(self, frame: FrameView) -> (
        ControlView,
        Result<Option<bool>, ProtError>,
    ) {
        let id = frame.header().id;
        if id == 0 {
            (self, Ok(None))
        } else {
            let stream = if self.streams.contains_key(id) {
                self.streams[id]
            } else {
                InnerStreamView::idle(id)
            };
            let p = stream.pushed(frame);
            match p.1 {
                Err(e) => (self, Err(e)),
                Ok(_) => {
                    let next = ControlView {
                        streams: self.streams.insert(id, p.0),
                        last_stream_id: larger(self.last_stream_id, id),
                        ..self
                    };
                    if p.0.end_headers && !stream.end_headers {
                        (
                            ControlView { ready_queue: self.ready_queue.push(id), ..next },
                            Ok(Some(true)),
                        )
                    } else {
                        (next, Ok(None))
                    }
                },
            }
        }
    }
}

/// The control of one connection.
pub struct Control {
    recv_frames: HashMap<StreamIdentifier, InnerStream>,
    ready_queue: Vec<StreamIdentifier>,
    last_stream_id: StreamIdentifier,
    send_frames: PriorityQueue,
    response_queue: Vec<SendResponse>,
    request_queue: Vec<SendRequest>,
    handshake: StateHandshake,
    setting: StateSettings,
    goaway: StateGoAway,
    ping_pong: StatePingPong,
    error: Option<PeerGoAway>,
    recv_window: u32,
    partial: Option<StreamIdentifier>,
    config: ControlConfig,
}

impl View for Control {
    type V = ControlView;

    closed spec fn view(&self) -> ControlView {
        ControlView {
            streams: streams_view(self.recv_frames@),
            ready_queue: self.ready_queue@,
            last_stream_id: self.last_stream_id,
            send: self.send_frames@,
            responses: send_responses_view(self.response_queue@),
            requests: send_requests_view(self.request_queue@),
            handshake: self.handshake,
            setting: self.setting,
            goaway: self.goaway.pending(),
            goaway_reason: self.goaway.last_reason(),
            ping: self.ping_pong,
            error: self.error,
            recv_window: self.recv_window,
            partial: self.partial,
            config: self.config,
        }
    }
}

impl Control {
    /// The control of a server on which nothing has happened.
    pub fn new(config: ControlConfig) -> (c: Control)
        ensures
            c@.streams == Map::<StreamIdentifier, InnerStreamView>::empty(),
            c@.ready_queue.len() == 0,
            c@.last_stream_id == 0,
            c@.send == (QueueView {
                queue: Seq::empty(),
                windows: Seq::empty(),
                conn_window: config.initial_window_size() as u64,
                initial_window: config.initial_window_size() as u64,
                weights: Seq::empty(),
            }),
            c@.responses.len() == 0,
            c@.requests.len() == 0,
            c@.handshake == (StateHandshake { is_client: false, is_done: false }),
            c@.setting == (StateSettings { local: config.settings, is_sent: false, is_done: false }),
            c@.goaway is None,
            c@.goaway_reason == NO_ERROR,
            c@.ping.pending is None,
            c@.error is None,
            c@.recv_window == DEFAULT_INITIAL_WINDOW_SIZE,
            c@.partial is None,
            c@.config == config,
            c@.wf(),
    {
        Control {
            recv_frames: HashMap::new(),
            send_frames: PriorityQueue::new(config.get_initial_window_size()),
            ready_queue: Vec::new(),
            response_queue: Vec::new(),
            request_queue: Vec::new(),
            setting: StateSettings::new(config.settings),
            handshake: StateHandshake::new_server(),
            goaway: StateGoAway::new(),
            ping_pong: StatePingPong::new(),
            last_stream_id: 0,
            error: None,
            recv_window: DEFAULT_INITIAL_WINDOW_SIZE,
            partial: None,
            config,
        }
    }

    /// The number of the next stream that this end opens; the one after it
    /// is larger by two, as long as numbers are left.
    pub fn next_stream_id(&mut self) -> (id: StreamIdentifier)
        ensures
            id == old(self)@.config.next_stream_id,
            final(self)@ == (ControlView {
                config: ControlConfig {
                    next_stream_id: if id <= u32::MAX - 2 {
                        (id + 2) as u32
                    } else {
                        id
                    },
                    ..old(self)@.config
                },
                ..old(self)@
            }),
    {
        let now = self.config.next_stream_id;
        if now <= u32::MAX - 2 {
            self.config.next_stream_id = now + 2;
        }
        now
    }

    /// An old entry point that builds nothing.
    pub fn build_request(&mut self, _frames: &Vec<Frame>) -> (r: Option<
        Result<RecvRequest, ProtError>,
    >)
        ensures
            r is None,
            final(self)@ == old(self)@,
    {
        None
    }

    /// Takes in a frame of a stream: see [`ControlView::frame_received`].
    pub fn recv_frame(&mut self, frame: Frame) -> (r: Result<Option<bool>, ProtError>)
        ensures
            final(self)@ == old(self)@.frame_received(frame@).0,
            r == old(self)@.frame_received(frame@).1,
    {
        let stream_id = frame.stream_id();
        if stream_id == 0 {
            return Ok(None);
        }
        let completes;
        let ghost list = streams_view(self.recv_frames@);
        match self.recv_frames.remove(&stream_id) {
            None => {
                proof {
                    assert(streams_view(self.recv_frames@) =~= list);
                }
                match InnerStream::new(frame) {
                    Err(e) => {
                        return Err(e);
                    },
                    Ok(stream) => {
                        completes = stream.is_end_headers();
                        self.recv_frames.insert(stream_id, stream);
                        proof {
                            assert(streams_view(self.recv_frames@) =~= list.insert(
                                stream_id,
                                stream@,
                            ));
                        }
                    },
                }
            },
            Some(known) => {
                let mut stream = known;
                let before = stream.is_end_headers();
                let res = stream.push(frame);
                completes = stream.is_end_headers() && !before;
                let ghost after = stream@;
                self.recv_frames.insert(stream_id, stream);
                proof {
                    assert(streams_view(self.recv_frames@) =~= list.insert(stream_id, after));
                }
                match res {
                    Err(e) => {
                        proof {
                            assert(list.insert(stream_id, after) =~= list);
                        }
                        return Err(e);
                    },
                    Ok(_) => {},
                }
            },
        }
        if stream_id > self.last_stream_id {
            self.last_stream_id = stream_id;
        }
        if completes {
            self.ready_queue.push(stream_id);
            Ok(Some(true))
        } else {
            Ok(None)
        }
    }
}

/// Taking in a frame leaves each stream under its own number.
pub proof fn lemma_frame_received_wf(c: ControlView, frame: FrameView)
    requires
        c.wf(),
    ensures
        c.frame_received(frame).0.wf(),
{
}

/// The responses that stay on their way out, and the queue, after each
/// response gave its frames to the queue, one response after the other: a
/// response whose stream is ended is done with.
pub open spec fn responses_encoded(list: Seq<SendResponseView>, send: QueueView, max: usize) -> (
    Seq<SendResponseView>,
    QueueView,
)
    decreases list.len(),
{
    if list.len() == 0 {
        (Seq::empty(), send)
    } else {
        let e = list[0].frames_encoded(max);
        let rest = responses_encoded(
            list.skip(1),
            QueueView { queue: send.queue + e.1, ..send },
            max,
        );
        (
            if e.0.end_sent {
                rest.0
            } else {
                seq![e.0] + rest.0
            },
            rest.1,
        )
    }
}

/// The requests that stay on their way out, and the queue, after each
/// request gave its frames to the queue, one request after the other: a
/// request whose stream is ended is done with.
pub open spec fn requests_encoded(list: Seq<SendRequestView>, send: QueueView, max: usize) -> (
    Seq<SendRequestView>,
    QueueView,
)
    decreases list.len(),
{
    if list.len() == 0 {
        (Seq::empty(), send)
    } else {
        let e = list[0].frames_encoded(max);
        let rest = requests_encoded(
            list.skip(1),
            QueueView { queue: send.queue + e.1, ..send },
            max,
        );
        (
            if e.0.end_sent {
                rest.0
            } else {
                seq![e.0] + rest.0
            },
            rest.1,
        )
    }
}

/// The list without the number `id`.
pub open spec fn without(list: Seq<StreamIdentifier>, id: StreamIdentifier) -> Seq<
    StreamIdentifier,
>
    decreases list.len(),
{
    if list.len() == 0 {
        Seq::empty()
    } else if list[0] == id {
        without(list.skip(1), id)
    } else {
        seq![list[0]] + without(list.skip(1), id)
    }
}

impl ControlView {
    /// The control after the messages on their way out gave their frames to
    /// the queue: the responses first, then the requests.
    pub open spec fn encoded(self, max: usize) -> ControlView {
        let a = responses_encoded(self.responses, self.send, max);
        let b = requests_encoded(self.requests, a.1, max);
        ControlView { responses: a.0, requests: b.0, send: b.1, ..self }
    }

    /// The control after a stream was reset: the stream is forgotten and no
    /// longer in line to be handed out.
    pub open spec fn stream_reset(self, id: StreamIdentifier) -> ControlView {
        ControlView {
            streams: self.streams.remove(id),
            ready_queue: without(self.ready_queue, id),
            ..self
        }
    }

    /// The control after it said farewell for `reason`: the frame names the
    /// last stream that was seen.
    pub open spec fn gone_away(self, reason: u32, debug: Seq<u8>) -> ControlView {
        ControlView {
            goaway: Some(goaway_frame(self.last_stream_id, reason, debug)),
            goaway_reason: reason,
            ..self
        }
    }
}

impl Control {
    /// Lets every response on its way out give its frames to the queue: see
    /// [`responses_encoded`].
    pub fn encode_response(&mut self, max_frame_size: usize) -> (r: Result<(), ProtError>)
        ensures
            r is Ok,
            final(self)@ == (ControlView {
                responses: responses_encoded(
                    old(self)@.responses,
                    old(self)@.send,
                    max_frame_size,
                ).0,
                send: responses_encoded(old(self)@.responses, old(self)@.send, max_frame_size).1,
                ..old(self)@
            }),
    {
        let mut vals: Vec<SendResponse> = Vec::new();
        vals.append(&mut self.response_queue);
        proof {
            assert(send_responses_view(vals@) =~= old(self)@.responses);
            assert(send_responses_view(self.response_queue@) =~= Seq::<SendResponseView>::empty());
        }
        while vals.len() > 0
            invariant
                self@ == (ControlView {
                    responses: send_responses_view(self.response_queue@),
                    send: self.send_frames@,
                    ..old(self)@
                }),
                responses_encoded(old(self)@.responses, old(self)@.send, max_frame_size) == (
                    send_responses_view(self.response_queue@) + responses_encoded(
                        send_responses_view(vals@),
                        self.send_frames@,
                        max_frame_size,
                    ).0,
                    responses_encoded(
                        send_responses_view(vals@),
                        self.send_frames@,
                        max_frame_size,
                    ).1,
                ),
            decreases vals@.len(),
        {
            let ghost list = send_responses_view(vals@);
            let ghost kept = send_responses_view(self.response_queue@);
            let ghost send = self.send_frames@;
            let mut l = vals.remove(0);
            proof {
                assert(send_responses_view(vals@) =~= list.skip(1));
                assert(list[0] == l@);
            }
            let (isend, frames) = l.encode_frames(max_frame_size);
            let _ = self.send_frames.send_frames(l.stream_id, frames);
            if !isend {
                self.response_queue.push(l);
                proof {
                    assert(send_responses_view(self.response_queue@) =~= kept + seq![l@]);
                    let rest = responses_encoded(list.skip(1), self.send_frames@, max_frame_size);
                    assert(kept + (seq![l@] + rest.0) =~= (kept + seq![l@]) + rest.0);
                }
            }
        }
        proof {
            assert(send_responses_view(self.response_queue@) + Seq::<SendResponseView>::empty()
                =~= send_responses_view(self.response_queue@));
        }
        Ok(())
    }

    /// Lets every request on its way out give its frames to the queue: see
    /// [`requests_encoded`].
    pub fn encode_request(&mut self, max_frame_size: usize) -> (r: Result<(), ProtError>)
        ensures
            r is Ok,
            final(self)@ == (ControlView {
                requests: requests_encoded(old(self)@.requests, old(self)@.send, max_frame_size).0,
                send: requests_encoded(old(self)@.requests, old(self)@.send, max_frame_size).1,
                ..old(self)@
            }),
    {
        let mut vals: Vec<SendRequest> = Vec::new();
        vals.append(&mut self.request_queue);
        proof {
            assert(send_requests_view(vals@) =~= old(self)@.requests);
            assert(send_requests_view(self.request_queue@) =~= Seq::<SendRequestView>::empty());
        }
        while vals.len() > 0
            invariant
                self@ == (ControlView {
                    requests: send_requests_view(self.request_queue@),
                    send: self.send_frames@,
                    ..old(self)@
                }),
                requests_encoded(old(self)@.requests, old(self)@.send, max_frame_size) == (
                    send_requests_view(self.request_queue@) + requests_encoded(
                        send_requests_view(vals@),
                        self.send_frames@,
                        max_frame_size,
                    ).0,
                    requests_encoded(
                        send_requests_view(vals@),
                        self.send_frames@,
                        max_frame_size,
                    ).1,
                ),
            decreases vals@.len(),
        {
            let ghost list = send_requests_view(vals@);
            let ghost kept = send_requests_view(self.request_queue@);
            let mut l = vals.remove(0);
            proof {
                assert(send_requests_view(vals@) =~= list.skip(1));
                assert(list[0] == l@);
            }
            let (isend, frames) = l.encode_frames(max_frame_size);
            let _ = self.send_frames.send_frames(l.stream_id, frames);
            if !isend {
                self.request_queue.push(l);
                proof {
                    assert(send_requests_view(self.request_queue@) =~= kept + seq![l@]);
                    let rest = requests_encoded(list.skip(1), self.send_frames@, max_frame_size);
                    assert(kept + (seq![l@] + rest.0) =~= (kept + seq![l@]) + rest.0);
                }
            }
        }
        proof {
            assert(send_requests_view(self.request_queue@) + Seq::<SendRequestView>::empty()
                =~= send_requests_view(self.request_queue@));
        }
        Ok(())
    }

    /// Says farewell for `reason`.
    pub fn go_away_now(&mut self, reason: u32)
        ensures
            final(self)@ == old(self)@.gone_away(reason, Seq::empty()),
    {
        self.goaway.go_away_now(self.last_stream_id, reason, Vec::new());
    }

    /// Says farewell for `reason`, with bytes that tell more.
    pub fn go_away_now_data(&mut self, reason: u32, data: Binary)
        ensures
            final(self)@ == old(self)@.gone_away(reason, crate::binary::bin_bytes(data)),
    {
        let debug = vstd::slice::slice_to_vec(crate::binary::bin_chunk(&data));
        self.goaway.go_away_now(self.last_stream_id, reason, debug);
    }

    /// The reason of the last farewell of this end.
    pub fn last_goaway_reason(&self) -> (r: &u32)
        ensures
            *r == self@.goaway_reason,
    {
        self.goaway.reason()
    }

    /// Takes note that the handshake was done before.
    pub fn set_handshake_status(&mut self, binary: Binary, is_client: bool)
        ensures
            final(self)@ == (ControlView {
                handshake: StateHandshake { is_client, is_done: true },
                ..old(self)@
            }),
    {
        self.handshake.set_handshake_status(binary, is_client)
    }

    /// Sets the settings of this end, and whether their exchange is over.
    pub fn set_setting_status(&mut self, setting: Settings, is_done: bool)
        ensures
            final(self)@ == (ControlView {
                setting: StateSettings { local: setting, is_sent: is_done, is_done },
                ..old(self)@
            }),
    {
        self.setting.set_settings(setting, is_done);
    }

    /// Takes the exchange of settings for over.
    pub fn set_setting_done(&mut self)
        ensures
            final(self)@ == (ControlView {
                setting: StateSettings { is_sent: true, is_done: true, ..old(self)@.setting },
                ..old(self)@
            }),
    {
        self.setting.set_settings_done();
    }

    /// Hands over a response to send on the stream `stream_id`.
    pub fn send_response(&mut self, res: RecvResponse, stream_id: StreamIdentifier) -> (r: Result<
        (),
        ProtError,
    >)
        ensures
            r is Ok,
            final(self)@ == (ControlView {
                responses: old(self)@.responses.push(
                    SendResponseView {
                        stream_id,
                        push_id: None,
                        response: response_view(res),
                        encode_header: false,
                        encode_body: false,
                        is_end_stream: response_view(res).body.is_end,
                        end_sent: false,
                        method: method_get(),
                    },
                ),
                ..old(self)@
            }),
    {
        self.send_response_may_push(res, stream_id, None)
    }

    /// Hands over a response to send on the stream `stream_id`, or to push
    /// on the stream `push` that is promised on it.
    pub fn send_response_may_push(
        &mut self,
        res: RecvResponse,
        stream_id: StreamIdentifier,
        push: Option<StreamIdentifier>,
    ) -> (r: Result<(), ProtError>)
        ensures
            r is Ok,
            final(self)@ == (ControlView {
                responses: old(self)@.responses.push(
                    SendResponseView {
                        stream_id,
                        push_id: push,
                        response: response_view(res),
                        encode_header: false,
                        encode_body: false,
                        is_end_stream: response_view(res).body.is_end,
                        end_sent: false,
                        method: method_get(),
                    },
                ),
                ..old(self)@
            }),
    {
        let is_end = res.body.is_end();
        let get: [u8; 3] = [71, 69, 84];
        proof {
            assert(get@ =~= method_get());
        }
        let response = SendResponse::new(
            stream_id,
            push,
            res,
            vstd::slice::slice_to_vec(&get),
            is_end,
        );
        let ghost list = send_responses_view(self.response_queue@);
        self.response_queue.push(response);
        proof {
            assert(send_responses_view(self.response_queue@) =~= list.push(response@));
        }
        Ok(())
    }

    /// Hands over a request to send, on the next stream that this end opens.
    pub fn send_request(&mut self, req: RecvRequest) -> (r: Result<(), ProtError>)
        ensures
            r is Ok,
            final(self)@ == (ControlView {
                requests: old(self)@.requests.push(
                    SendRequestView {
                        stream_id: old(self)@.config.next_stream_id,
                        request: request_view(req),
                        encode_header: false,
                        encode_body: false,
                        is_end_stream: request_view(req).body.is_end,
                        end_sent: false,
                    },
                ),
                config: ControlConfig {
                    next_stream_id: if old(self)@.config.next_stream_id <= u32::MAX - 2 {
                        (old(self)@.config.next_stream_id + 2) as u32
                    } else {
                        old(self)@.config.next_stream_id
                    },
                    ..old(self)@.config
                },
                ..old(self)@
            }),
    {
        let is_end = req.body.is_end();
        let next_id = self.next_stream_id();
        let request = SendRequest::new(next_id, req, is_end);
        let ghost list = send_requests_view(self.request_queue@);
        self.request_queue.push(request);
        proof {
            assert(send_requests_view(self.request_queue@) =~= list.push(request@));
        }
        Ok(())
    }
}

/// The method `GET`.
pub open spec fn method_get() -> Seq<u8> {
    seq![71u8, 69, 84]
}

/// What the control hands to its user when no frame can be read.
pub enum Delivered<T> {
    /// Nothing yet.
    Pending,
    /// The connection cannot go on.
    Failed(ProtError),
    /// A message, and the handle to answer it.
    Message(T, SendControl),
}

/// [`Delivered`] by what it holds: the message and the number of its stream.
/// The method that the handle holds is stated beside it.
pub enum DeliveredView<T> {
    Pending,
    Failed(ProtError),
    Message(T, StreamIdentifier),
}

/// The numbers of the list that are not above `last`.
pub open spec fn not_above(list: Seq<StreamIdentifier>, last: StreamIdentifier) -> Seq<
    StreamIdentifier,
>
    decreases list.len(),
{
    if list.len() == 0 {
        Seq::empty()
    } else if list[0] > last {
        not_above(list.skip(1), last)
    } else {
        seq![list[0]] + not_above(list.skip(1), last)
    }
}

/// A frame that gives room for `increment` more bytes.
pub open spec fn window_frame(id: StreamIdentifier, increment: u32) -> FrameView {
    FrameView::WindowUpdate {
        header: FrameHeader { kind: Kind::WindowUpdate, flag: Flag::zero_spec(), id },
        increment,
    }
}

/// The window below which this end gives the peer more room.
pub open spec fn window_threshold() -> u32 {
    (DEFAULT_INITIAL_WINDOW_SIZE / 2) as u32
}

impl ControlView {
    /// The control after it looked for the next message to hand out, with
    /// the request of the stream that is first in line and the number of that
    /// stream; an error if the stream is gone or holds no request.
    pub open spec fn request_built(self) -> (
        ControlView,
        Option<Result<(RequestView, StreamIdentifier), ProtError>>,
    ) {
        if self.ready_queue.len() == 0 {
            (self, None)
        } else {
            let id = self.ready_queue[0];
            let next = ControlView { ready_queue: self.ready_queue.skip(1), ..self };
            if !self.streams.contains_key(id) {
                (next, Some(Err(ProtError::ProtocolViolation)))
            } else {
                match self.streams[id].request() {
                    None => (next, Some(Err(ProtError::ProtocolViolation))),
                    Some(r) => (
                        ControlView {
                            streams: self.streams.insert(id, self.streams[id].built()),
                            ..next
                        },
                        Some(Ok((r, id))),
                    ),
                }
            }
        }
    }

    /// The control after it looked for the next message to hand out, with
    /// the response of the stream that is first in line and the number of
    /// that stream; an error if the stream is gone or holds no response.
    pub open spec fn response_built(self) -> (
        ControlView,
        Option<Result<(ResponseView, StreamIdentifier), ProtError>>,
    ) {
        if self.ready_queue.len() == 0 {
            (self, None)
        } else {
            let id = self.ready_queue[0];
            let next = ControlView { ready_queue: self.ready_queue.skip(1), ..self };
            if !self.streams.contains_key(id) {
                (next, Some(Err(ProtError::ProtocolViolation)))
            } else {
                match self.streams[id].response() {
                    None => (next, Some(Err(ProtError::ProtocolViolation))),
                    Some(r) => (
                        ControlView {
                            streams: self.streams.insert(id, self.streams[id].built()),
                            ..next
                        },
                        Some(Ok((r, id))),
                    ),
                }
            }
        }
    }

    /// The control after the peer said farewell for a reason that is an
    /// error: the streams above the last one that the peer took up are no
    /// longer in line.
    pub open spec fn failed_dropped(self) -> ControlView {
        match self.error {
            Some(e) => if e.reason != NO_ERROR {
                ControlView { ready_queue: not_above(self.ready_queue, e.last_stream_id), ..self }
            } else {
                self
            },
            None => self,
        }
    }

    /// What is handed out when no frame can be read, given what the look for
    /// the next message gave: the message; or the error; or, with nothing in
    /// line, the farewell of the peer as an error, if it said one.
    pub open spec fn delivered<T>(
        self,
        built: Option<Result<(T, StreamIdentifier), ProtError>>,
    ) -> DeliveredView<T> {
        match built {
            Some(Ok((r, id))) => DeliveredView::Message(r, id),
            Some(Err(e)) => DeliveredView::Failed(e),
            None => match self.error {
                Some(e) => DeliveredView::Failed(
                    ProtError::GoAway(e.reason, crate::error::Initiator::Library),
                ),
                None => DeliveredView::Pending,
            },
        }
    }

    /// The control after it counted `len` bytes of a body that came on the
    /// stream `id`, and whether the peer kept to the window. More bytes than
    /// the window allows are an error of flow control, for which this end
    /// says farewell. Else the window shrinks; when it falls below the
    /// threshold it is filled up, and the peer is told so; and a stream that
    /// goes on gets back the room that its bytes took.
    pub open spec fn data_counted(self, id: StreamIdentifier, len: nat, end_stream: bool) -> (
        ControlView,
        Result<(), ProtError>,
    ) {
        if len > self.recv_window {
            (self.gone_away(FLOW_CONTROL_ERROR, Seq::empty()), Err(ProtError::FlowControl))
        } else {
            let left = (self.recv_window - len) as u32;
            let refill = left < window_threshold();
            let conn = if refill {
                seq![window_frame(0, (DEFAULT_INITIAL_WINDOW_SIZE - left) as u32)]
            } else {
                Seq::empty()
            };
            let stream = if len > 0 && !end_stream {
                seq![window_frame(id, len as u32)]
            } else {
                Seq::empty()
            };
            (
                ControlView {
                    recv_window: if refill {
                        DEFAULT_INITIAL_WINDOW_SIZE
                    } else {
                        left
                    },
                    send: QueueView { queue: self.send.queue + conn + stream, ..self.send },
                    ..self
                },
                Ok(()),
            )
        }
    }
}

pub open spec fn delivered_request_view(d: Delivered<RecvRequest>) -> DeliveredView<RequestView> {
    match d {
        Delivered::Pending => DeliveredView::Pending,
        Delivered::Failed(e) => DeliveredView::Failed(e),
        Delivered::Message(r, control) => DeliveredView::Message(
            request_view(r),
            control.stream_id,
        ),
    }
}

pub open spec fn delivered_response_view(d: Delivered<RecvResponse>) -> DeliveredView<
    ResponseView,
> {
    match d {
        Delivered::Pending => DeliveredView::Pending,
        Delivered::Failed(e) => DeliveredView::Failed(e),
        Delivered::Message(r, control) => DeliveredView::Message(
            response_view(r),
            control.stream_id,
        ),
    }
}

fn make_window_frame(id: StreamIdentifier, increment: u32) -> (f: Frame)
    ensures
        f@ == window_frame(id, increment),
{
    Frame::WindowUpdate { header: FrameHeader::new(Kind::WindowUpdate, Flag::zero(), id), increment }
}

impl Control {
    /// Builds the request of the stream that is first in line: see
    /// [`ControlView::request_built`]. The handle that comes with the
    /// request names its stream and its method.
    pub fn build_request_frame(&mut self) -> (r: Option<Result<(RecvRequest, SendControl), ProtError>>)
        ensures
            final(self)@ == old(self)@.request_built().0,
            match r {
                None => old(self)@.request_built().1 is None,
                Some(Err(e)) => old(self)@.request_built().1 == Some(
                    Err::<(RequestView, StreamIdentifier), ProtError>(e),
                ),
                Some(Ok((req, control))) => old(self)@.request_built().1 == Some(
                    Ok::<(RequestView, StreamIdentifier), ProtError>(
                        (request_view(req), control.stream_id),
                    ),
                ) && control.method@ == req.head.method@,
            },
    {
        if self.ready_queue.len() == 0 {
            return None;
        }
        let stream_id = self.ready_queue.remove(0);
        proof {
            assert(self.ready_queue@ =~= old(self)@.ready_queue.skip(1));
        }
        let ghost list = streams_view(self.recv_frames@);
        match self.recv_frames.remove(&stream_id) {
            None => {
                proof {
                    assert(streams_view(self.recv_frames@) =~= list);
                }
                Some(Err(ProtError::ProtocolViolation))
            },
            Some(known) => {
                let mut stream = known;
                let res = stream.build_request();
                let ghost after = stream@;
                self.recv_frames.insert(stream_id, stream);
                proof {
                    assert(streams_view(self.recv_frames@) =~= list.insert(stream_id, after));
                }
                match res {
                    Err(e) => {
                        proof {
                            assert(list.insert(stream_id, after) =~= list);
                        }
                        Some(Err(e))
                    },
                    Ok(r) => {
                        let method = r.head.method.clone();
                        Some(Ok((r, SendControl::new(stream_id, method))))
                    },
                }
            },
        }
    }

    /// Builds the response of the stream that is first in line: see
    /// [`ControlView::response_built`].
    pub fn build_response_frame(&mut self) -> (r: Option<
        Result<(RecvResponse, SendControl), ProtError>,
    >)
        ensures
            final(self)@ == old(self)@.response_built().0,
            match r {
                None => old(self)@.response_built().1 is None,
                Some(Err(e)) => old(self)@.response_built().1 == Some(
                    Err::<(ResponseView, StreamIdentifier), ProtError>(e),
                ),
                Some(Ok((res, control))) => old(self)@.response_built().1 == Some(
                    Ok::<(ResponseView, StreamIdentifier), ProtError>(
                        (response_view(res), control.stream_id),
                    ),
                ) && control.method@ == method_get(),
            },
    {
        if self.ready_queue.len() == 0 {
            return None;
        }
        let stream_id = self.ready_queue.remove(0);
        proof {
            assert(self.ready_queue@ =~= old(self)@.ready_queue.skip(1));
        }
        let ghost list = streams_view(self.recv_frames@);
        match self.recv_frames.remove(&stream_id) {
            None => {
                proof {
                    assert(streams_view(self.recv_frames@) =~= list);
                }
                Some(Err(ProtError::ProtocolViolation))
            },
            Some(known) => {
                let mut stream = known;
                let res = stream.build_response();
                let ghost after = stream@;
                self.recv_frames.insert(stream_id, stream);
                proof {
                    assert(streams_view(self.recv_frames@) =~= list.insert(stream_id, after));
                }
                match res {
                    Err(e) => {
                        proof {
                            assert(list.insert(stream_id, after) =~= list);
                        }
                        Some(Err(e))
                    },
                    Ok(r) => {
                        let get: [u8; 3] = [71, 69, 84];
                        proof {
                            assert(get@ =~= method_get());
                        }
                        Some(Ok((r, SendControl::new(stream_id, vstd::slice::slice_to_vec(&get)))))
                    },
                }
            },
        }
    }

    /// Takes the streams that the peer will not take up out of the line: see
    /// [`ControlView::failed_dropped`].
    fn drop_failed(&mut self)
        ensures
            final(self)@ == old(self)@.failed_dropped(),
    {
        match self.error {
            Some(e) => {
                if e.reason != NO_ERROR {
                    let mut kept: Vec<StreamIdentifier> = Vec::new();
                    let mut i: usize = 0;
                    proof {
                        assert(self.ready_queue@.skip(0) =~= self.ready_queue@);
                    }
                    while i < self.ready_queue.len()
                        invariant
                            i <= self.ready_queue@.len(),
                            self.ready_queue@ == old(self).ready_queue@,
                            not_above(self.ready_queue@, e.last_stream_id) == kept@ + not_above(
                                self.ready_queue@.skip(i as int),
                                e.last_stream_id,
                            ),
                        decreases self.ready_queue@.len() - i,
                    {
                        let ghost rest = self.ready_queue@.skip(i as int);
                        let ghost before = kept@;
                        proof {
                            assert(rest[0] == self.ready_queue@[i as int]);
                            assert(rest.skip(1) =~= self.ready_queue@.skip(i + 1));
                        }
                        if self.ready_queue[i] <= e.last_stream_id {
                            kept.push(self.ready_queue[i]);
                            proof {
                                let tail = not_above(rest.skip(1), e.last_stream_id);
                                assert(before + (seq![rest[0]] + tail) =~= (before + seq![rest[0]])
                                    + tail);
                            }
                        }
                        i = i + 1;
                    }
                    proof {
                        assert(kept@ + Seq::<StreamIdentifier>::empty() =~= kept@);
                    }
                    self.ready_queue = kept;
                }
            },
            None => {},
        }
    }

    /// What a server hands to its user when no frame can be read: the next
    /// request in line, after the streams that the peer will not take up
    /// were taken out of the line; or the end of the connection, if the peer
    /// said farewell and nothing is in line.
    pub fn poll_request(&mut self) -> (r: Delivered<RecvRequest>)
        ensures
            final(self)@ == old(self)@.failed_dropped().request_built().0,
            delivered_request_view(r) == old(self)@.delivered(
                old(self)@.failed_dropped().request_built().1,
            ),
            r matches Delivered::Message(req, control) ==> control.method@ == req.head.method@,
    {
        self.drop_failed();
        match self.build_request_frame() {
            Some(Ok((r, control))) => Delivered::Message(r, control),
            Some(Err(e)) => Delivered::Failed(e),
            None => match self.error {
                Some(e) => Delivered::Failed(ProtError::library_go_away(e.reason)),
                None => Delivered::Pending,
            },
        }
    }

    /// What a client hands to its user when no frame can be read: the next
    /// response in line, after the streams that the peer will not take up
    /// were taken out of the line; or the end of the connection, if the peer
    /// said farewell and nothing is in line.
    pub fn poll_response(&mut self) -> (r: Delivered<RecvResponse>)
        ensures
            final(self)@ == old(self)@.failed_dropped().response_built().0,
            delivered_response_view(r) == old(self)@.delivered(
                old(self)@.failed_dropped().response_built().1,
            ),
            r matches Delivered::Message(_, control) ==> control.method@ == method_get(),
    {
        self.drop_failed();
        match self.build_response_frame() {
            Some(Ok((r, control))) => Delivered::Message(r, control),
            Some(Err(e)) => Delivered::Failed(e),
            None => match self.error {
                Some(e) => Delivered::Failed(ProtError::library_go_away(e.reason)),
                None => Delivered::Pending,
            },
        }
    }

    /// Counts the bytes of a body that came: see
    /// [`ControlView::data_counted`].
    fn count_data(&mut self, id: StreamIdentifier, len: usize, end_stream: bool) -> (r: Result<
        (),
        ProtError,
    >)
        ensures
            final(self)@ == old(self)@.data_counted(id, len as nat, end_stream).0,
            r == old(self)@.data_counted(id, len as nat, end_stream).1,
    {
        if len > self.recv_window as usize {
            self.go_away_now(FLOW_CONTROL_ERROR);
            return Err(ProtError::FlowControl);
        }
        let left = self.recv_window - len as u32;
        let ghost queue = self.send_frames@.queue;
        if left < DEFAULT_INITIAL_WINDOW_SIZE / 2 {
            self.send_frames.send_frame(make_window_frame(0, DEFAULT_INITIAL_WINDOW_SIZE - left));
            self.recv_window = DEFAULT_INITIAL_WINDOW_SIZE;
        } else {
            self.recv_window = left;
            proof {
                assert(queue + Seq::<FrameView>::empty() =~= queue);
            }
        }
        let ghost queue2 = self.send_frames@.queue;
        if len > 0 && !end_stream {
            self.send_frames.send_frame(make_window_frame(id, len as u32));
        } else {
            proof {
                assert(queue2 + Seq::<FrameView>::empty() =~= queue2);
            }
        }
        proof {
            let c = old(self)@.data_counted(id, len as nat, end_stream).0;
            assert(self.send_frames@.queue =~= c.send.queue);
        }
        Ok(())
    }
}

impl ControlView {
    /// The control after a frame of a stream was taken in and, if it held
    /// bytes of a body, counted. A frame out of order is an error for which
    /// this end says farewell.
    pub open spec fn stream_frame_taken(self, frame: FrameView) -> (
        ControlView,
        Result<(), ProtError>,
    ) {
        let r = self.frame_received(frame);
        match r.1 {
            Err(e) => (r.0.gone_away(PROTOCOL_ERROR, Seq::empty()), Err(e)),
            Ok(_) => if frame is Data {
                r.0.data_counted(
                    frame.header().id,
                    frame.payload().len(),
                    frame.header().flag.end_stream,
                )
            } else {
                (r.0, Ok(()))
            },
        }
    }

    /// The control after the peer declared settings: an acknowledgement ends
    /// the exchange; anything else is applied and acknowledged, and the
    /// window of new streams follows what the peer declared.
    pub open spec fn settings_taken(self, settings: Settings) -> ControlView {
        let setting = StateSettings {
            is_done: self.setting.is_done || settings.is_ack,
            ..self.setting
        };
        if settings.is_ack {
            ControlView { setting, ..self }
        } else {
            let config = ControlConfig { settings, ..self.config };
            ControlView {
                setting,
                config,
                send: QueueView {
                    queue: self.send.queue.push(settings_frame(Settings::ack_spec())),
                    initial_window: config.initial_window_size() as u64,
                    ..self.send
                },
                ..self
            }
        }
    }

    /// Whether a frame may come now: while a block of headers is begun and
    /// not ended, nothing but its continuation on the same stream; and a
    /// continuation at no other time.
    pub open spec fn in_turn(self, frame: FrameView) -> bool {
        match self.partial {
            Some(id) => frame is Continuation && frame.header().id == id,
            None => !(frame is Continuation),
        }
    }

    /// The control after a frame came, whatever its kind, and whether the
    /// connection can go on. A frame that comes out of turn is an error for
    /// which this end says farewell. A frame that begins a block of headers
    /// and does not end it makes the control wait for its continuation.
    pub open spec fn frame_taken(self, frame: FrameView) -> (ControlView, Result<(), ProtError>) {
        if !self.in_turn(frame) {
            (self.gone_away(PROTOCOL_ERROR, Seq::empty()), Err(ProtError::ProtocolViolation))
        } else {
            ControlView {
                partial: if frame.opens_block() {
                    Some(frame.header().id)
                } else {
                    None
                },
                ..self
            }.kind_taken(frame)
        }
    }

    /// The control after a frame that came in turn was taken in by its kind.
    pub open spec fn kind_taken(self, frame: FrameView) -> (ControlView, Result<(), ProtError>) {
        match frame {
            FrameView::Settings { settings, .. } => (self.settings_taken(settings), Ok(())),
            FrameView::Data { .. } => self.stream_frame_taken(frame),
            FrameView::Headers { .. } => self.stream_frame_taken(frame),
            FrameView::Continuation { .. } => self.stream_frame_taken(frame),
            FrameView::Priority { header, weight, .. } => (
                ControlView {
                    send: QueueView {
                        weights: seq![(header.id, weight)] + self.send.weights,
                        ..self.send
                    },
                    ..self
                },
                Ok(()),
            ),
            FrameView::PushPromise { .. } => (self, Ok(())),
            FrameView::Ping { header, payload } => (
                ControlView {
                    ping: StatePingPong {
                        pending: if header.flag.ack {
                            self.ping.pending
                        } else {
                            Some(payload)
                        },
                    },
                    ..self
                },
                Ok(()),
            ),
            FrameView::GoAway { last_stream_id, reason, .. } => (
                ControlView { error: Some(PeerGoAway { last_stream_id, reason }), ..self },
                Ok(()),
            ),
            FrameView::WindowUpdate { header, increment } => {
                let w = self.send.window_updated(header.id, increment);
                if w.1 {
                    (ControlView { send: w.0, ..self }, Ok(()))
                } else {
                    (self.gone_away(FLOW_CONTROL_ERROR, Seq::empty()), Err(ProtError::FlowControl))
                }
            },
            FrameView::Reset { header, .. } => (self.stream_reset(header.id), Ok(())),
        }
    }

    /// The answer to a ping that waits, as the frames to send first.
    pub open spec fn pong(self) -> Seq<FrameView> {
        match self.ping.pending {
            Some(payload) => seq![pong_frame(payload)],
            None => Seq::empty(),
        }
    }
}

impl Control {
    /// One step of the handshake, on the bytes that the codec holds.
    pub fn poll_handshake(&mut self, codec: &mut Codec) -> (r: Handshake)
        ensures
            final(self)@ == (ControlView {
                handshake: old(self)@.handshake.handled(old(codec)@).0,
                ..old(self)@
            }),
            final(codec)@ == old(self)@.handshake.handled(old(codec)@).1,
            r == old(self)@.handshake.handled(old(codec)@).2,
    {
        self.handshake.poll_handle(codec)
    }

    /// One step of the exchange of settings: the settings of this end are
    /// queued, once. Returns whether the peer has yet to acknowledge them.
    pub fn poll_setting(&mut self) -> (wait: bool)
        ensures
            wait == !old(self)@.setting.is_done,
            final(self)@ == (ControlView {
                setting: StateSettings { is_sent: true, ..old(self)@.setting },
                send: if old(self)@.setting.is_sent {
                    old(self)@.send
                } else {
                    QueueView {
                        queue: old(self)@.send.queue.push(
                            settings_frame(old(self)@.setting.local),
                        ),
                        ..old(self)@.send
                    }
                },
                ..old(self)@
            }),
    {
        let (frame, wait) = self.setting.poll_handle();
        match frame {
            Some(f) => {
                self.send_frames.send_frame(f);
            },
            None => {},
        }
        wait
    }

    /// Forgets a stream that was reset: see [`ControlView::stream_reset`].
    fn reset_stream(&mut self, id: StreamIdentifier)
        ensures
            final(self)@ == old(self)@.stream_reset(id),
    {
        let ghost list = streams_view(self.recv_frames@);
        self.recv_frames.remove(&id);
        proof {
            assert(streams_view(self.recv_frames@) =~= list.remove(id));
        }
        let mut kept: Vec<StreamIdentifier> = Vec::new();
        let mut i: usize = 0;
        proof {
            assert(self.ready_queue@.skip(0) =~= self.ready_queue@);
        }
        while i < self.ready_queue.len()
            invariant
                i <= self.ready_queue@.len(),
                self.ready_queue@ == old(self).ready_queue@,
                without(self.ready_queue@, id) == kept@ + without(
                    self.ready_queue@.skip(i as int),
                    id,
                ),
            decreases self.ready_queue@.len() - i,
        {
            let ghost rest = self.ready_queue@.skip(i as int);
            let ghost before = kept@;
            proof {
                assert(rest[0] == self.ready_queue@[i as int]);
                assert(rest.skip(1) =~= self.ready_queue@.skip(i + 1));
            }
            if self.ready_queue[i] != id {
                kept.push(self.ready_queue[i]);
                proof {
                    let tail = without(rest.skip(1), id);
                    assert(before + (seq![rest[0]] + tail) =~= (before + seq![rest[0]]) + tail);
                }
            }
            i = i + 1;
        }
        proof {
            assert(kept@ + Seq::<StreamIdentifier>::empty() =~= kept@);
        }
        self.ready_queue = kept;
    }

    /// Takes in a frame of a stream and counts its bytes: see
    /// [`ControlView::stream_frame_taken`].
    fn recv_stream_frame(&mut self, frame: Frame) -> (r: Result<(), ProtError>)
        ensures
            final(self)@ == old(self)@.stream_frame_taken(frame@).0,
            r == old(self)@.stream_frame_taken(frame@).1,
    {
        let id = frame.stream_id();
        let len = frame.payload_len();
        let end_stream = frame.is_end_stream();
        let is_data = frame.is_data();
        match self.recv_frame(frame) {
            Err(e) => {
                self.go_away_now(PROTOCOL_ERROR);
                Err(e)
            },
            Ok(_) => {
                if is_data {
                    self.count_data(id, len, end_stream)
                } else {
                    Ok(())
                }
            },
        }
    }

    /// Takes in settings of the peer: see [`ControlView::settings_taken`].
    fn recv_settings(&mut self, settings: Settings)
        ensures
            final(self)@ == old(self)@.settings_taken(settings),
    {
        let (ack, _done) = self.setting.recv_setting(settings);
        match ack {
            Some(frame) => {
                self.config.apply_remote_settings(&settings);
                self.send_frames.set_initial_window(self.config.get_initial_window_size());
                self.send_frames.send_frame(frame);
            },
            None => {},
        }
    }

    /// Takes in a frame that was read, whatever its kind: see
    /// [`ControlView::frame_taken`].
    pub fn recv(&mut self, frame: Frame) -> (r: Result<(), ProtError>)
        ensures
            final(self)@ == old(self)@.frame_taken(frame@).0,
            r == old(self)@.frame_taken(frame@).1,
    {
        let in_turn = match self.partial {
            Some(id) => frame.is_continuation() && frame.stream_id() == id,
            None => !frame.is_continuation(),
        };
        if !in_turn {
            self.go_away_now(PROTOCOL_ERROR);
            return Err(ProtError::ProtocolViolation);
        }
        if frame.opens_block() {
            self.partial = Some(frame.stream_id());
        } else {
            self.partial = None;
        }
        self.recv_kind(frame)
    }

    /// Takes in a frame that came in turn, by its kind: see
    /// [`ControlView::kind_taken`].
    fn recv_kind(&mut self, frame: Frame) -> (r: Result<(), ProtError>)
        ensures
            final(self)@ == old(self)@.kind_taken(frame@).0,
            r == old(self)@.kind_taken(frame@).1,
    {
        match frame {
            Frame::Settings { header, settings } => {
                self.recv_settings(settings);
                Ok(())
            },
            Frame::Data { header, payload } => self.recv_stream_frame(
                Frame::Data { header, payload },
            ),
            Frame::Headers { header, fields } => self.recv_stream_frame(
                Frame::Headers { header, fields },
            ),
            Frame::Continuation { header, fields } => self.recv_stream_frame(
                Frame::Continuation { header, fields },
            ),
            Frame::Priority { header, dependency, weight, exclusive } => {
                self.send_frames.priority_recv(header.id, weight);
                Ok(())
            },
            Frame::PushPromise { .. } => Ok(()),
            Frame::Ping { header, payload } => {
                self.ping_pong.receive(header.flag.ack, payload);
                Ok(())
            },
            Frame::GoAway { header, last_stream_id, reason, debug } => {
                self.error = Some(PeerGoAway { last_stream_id, reason });
                Ok(())
            },
            Frame::WindowUpdate { header, increment } => {
                match self.send_frames.window_update(header.id, increment) {
                    Ok(_) => Ok(()),
                    Err(e) => {
                        self.go_away_now(FLOW_CONTROL_ERROR);
                        Err(e)
                    },
                }
            },
            Frame::Reset { header, reason } => {
                self.reset_stream(header.id);
                Ok(())
            },
        }
    }

    /// One round of sending. The messages on their way out give their frames
    /// to the queue. A farewell of this end goes out alone, and ends the
    /// connection with its reason. Else the answer to a ping goes first, then
    /// the frames that the queue lets go, one after the other, until nothing
    /// can be sent or as many went as one round may take.
    pub fn poll_write(&mut self, max_frame_size: usize) -> (r: (Vec<Frame>, Option<ProtError>))
        ensures
            ({
                let e = old(self)@.encoded(max_frame_size);
                match e.goaway {
                    Some(f) => frames_view(r.0@) == seq![f] && r.1 == Some(
                        ProtError::GoAway(e.goaway_reason, crate::error::Initiator::Library),
                    ) && final(self)@ == (ControlView { goaway: None, ..e }),
                    None => {
                        let first = e.pong();
                        let rest = frames_view(r.0@).skip(first.len() as int);
                        &&& r.1 is None
                        &&& frames_view(r.0@).len() >= first.len()
                        &&& frames_view(r.0@).take(first.len() as int) == first
                        &&& drained(e.send, rest, final(self)@.send, max_frame_size)
                        &&& rest.len() <= e.config.max_send_buffer_size
                        &&& (final(self)@.send.is_blocked() || rest.len()
                            == e.config.max_send_buffer_size)
                        &&& final(self)@ == (ControlView {
                            ping: StatePingPong { pending: None },
                            send: final(self)@.send,
                            ..e
                        })
                    },
                }
            }),
    {
        let _ = self.encode_response(max_frame_size);
        let _ = self.encode_request(max_frame_size);
        let ghost e = self@;
        let mut out: Vec<Frame> = Vec::new();
        match self.goaway.poll_handle() {
            Some((frame, reason)) => {
                out.push(frame);
                proof {
                    assert(frames_view(out@) =~= seq![frame@]);
                }
                return (out, Some(ProtError::library_go_away(reason)));
            },
            None => {},
        }
        match self.ping_pong.poll_handle() {
            Some(frame) => {
                out.push(frame);
            },
            None => {},
        }
        let ghost first = frames_view(out@);
        proof {
            assert(first =~= e.pong());
            assert(frames_view(out@).skip(first.len() as int) =~= Seq::<FrameView>::empty());
            assert(frames_view(out@).take(first.len() as int) =~= first);
        }
        let budget = self.config.max_send_buffer_size;
        let mut taken: usize = 0;
        let mut blocked = false;
        while taken < budget && !blocked
            invariant
                taken <= budget,
                budget == e.config.max_send_buffer_size,
                frames_view(out@).len() == first.len() + taken,
                frames_view(out@).take(first.len() as int) == first,
                drained(
                    e.send,
                    frames_view(out@).skip(first.len() as int),
                    self@.send,
                    max_frame_size,
                ),
                blocked ==> self@.send.is_blocked(),
                self@ == (ControlView {
                    ping: StatePingPong { pending: None },
                    send: self@.send,
                    ..e
                }),
            decreases budget - taken + (if blocked {
                0int
            } else {
                1int
            }),
        {
            let ghost before = frames_view(out@);
            let ghost queue = self@.send;
            match self.send_frames.poll_handle(max_frame_size) {
                Some(frame) => {
                    out.push(frame);
                    taken = taken + 1;
                    proof {
                        let i = choose|i: int|
                            #[trigger] queue.is_next(i) && self@.send == queue.sent_at(
                                i,
                                max_frame_size,
                            ).0 && frame@ == queue.sent_at(i, max_frame_size).1;
                        lemma_drained_push(
                            e.send,
                            before.skip(first.len() as int),
                            queue,
                            max_frame_size,
                            i,
                        );
                        assert(frames_view(out@) =~= before.push(frame@));
                        assert(frames_view(out@).skip(first.len() as int) =~= before.skip(
                            first.len() as int,
                        ).push(frame@));
                        assert(frames_view(out@).take(first.len() as int) =~= before.take(
                            first.len() as int,
                        ));
                    }
                },
                None => {
                    blocked = true;
                },
            }
        }
        (out, None)
    }
}

impl ControlView {
    /// What is to be done about the source behind the body of the response
    /// at `i`, and the control after that body asked its semaphore; nothing
    /// where no response is at `i`.
    pub open spec fn response_pull_ready(self, i: int) -> (ControlView, PullAction) {
        if 0 <= i < self.responses.len() {
            let r = self.responses[i];
            let p = r.response.body.primed().0.pull_ready();
            (
                ControlView {
                    responses: self.responses.update(
                        i,
                        SendResponseView {
                            response: ResponseView { body: p.0, ..r.response },
                            ..r
                        },
                    ),
                    ..self
                },
                p.1,
            )
        } else {
            (self, PullAction::Done)
        }
    }

    /// The control after the body of the response at `i` took in what a poll
    /// of its source gave, and what that body returns; nothing changes where
    /// no response is at `i`.
    pub open spec fn response_pulled(self, i: int, polled: PolledView) -> (
        ControlView,
        Result<bool, ProtError>,
    ) {
        if 0 <= i < self.responses.len() {
            let r = self.responses[i];
            let p = r.response.body.received(polled);
            (
                ControlView {
                    responses: self.responses.update(
                        i,
                        SendResponseView {
                            response: ResponseView { body: p.0, ..r.response },
                            ..r
                        },
                    ),
                    ..self
                },
                p.1,
            )
        } else {
            (self, Ok(false))
        }
    }
}

impl Control {
    /// The number of responses on their way out.
    pub fn response_count(&self) -> (n: usize)
        ensures
            n == self@.responses.len(),
    {
        self.response_queue.len()
    }

    /// The stream of the response at `i` on its way out.
    pub fn response_stream_id(&self, i: usize) -> (id: Option<StreamIdentifier>)
        ensures
            id == if i < self@.responses.len() {
                Some(self@.responses[i as int].stream_id)
            } else {
                None
            },
    {
        if i < self.response_queue.len() {
            Some(self.response_queue[i].stream_id)
        } else {
            None
        }
    }

    /// Says what is to be done about the source behind the body of the
    /// response at `i`. The bytes that the body was made with go through its
    /// decode stage first, so that what the source gives comes behind them.
    pub fn response_source_ready(&mut self, i: usize) -> (action: PullAction)
        ensures
            final(self)@ == old(self)@.response_pull_ready(i as int).0,
            action == old(self)@.response_pull_ready(i as int).1,
    {
        if i >= self.response_queue.len() {
            return PullAction::Done;
        }
        let ghost list = send_responses_view(self.response_queue@);
        let mut res = self.response_queue.remove(i);
        proof {
            assert(list[i as int] == res@);
        }
        let _ = res.response.body.process_origin();
        let action = res.response.body.inner_poll_ready();
        let ghost after = res@;
        self.response_queue.insert(i, res);
        proof {
            assert(send_responses_view(self.response_queue@) =~= list.update(i as int, after));
        }
        action
    }

    /// Hands what a poll of its source gave to the body of the response at
    /// `i`.
    pub fn response_source_feed(&mut self, i: usize, polled: crate::body::Polled) -> (r: Result<
        bool,
        ProtError,
    >)
        ensures
            final(self)@ == old(self)@.response_pulled(i as int, polled@).0,
            r == old(self)@.response_pulled(i as int, polled@).1,
    {
        if i >= self.response_queue.len() {
            return Ok(false);
        }
        let ghost list = send_responses_view(self.response_queue@);
        let mut res = self.response_queue.remove(i);
        proof {
            assert(list[i as int] == res@);
        }
        let r = res.response.body.inner_poll_read(polled);
        let ghost after = res@;
        self.response_queue.insert(i, res);
        proof {
            assert(send_responses_view(self.response_queue@) =~= list.update(i as int, after));
        }
        r
    }

    /// Hands on the bytes that came on the stream `id` since its message was
    /// built; `channel` is what the channel of that message's body said when
    /// it was asked for room. A channel whose reader is gone is an error. A
    /// full one leaves the bytes where they are, for a later call. Into one
    /// that has room go the bytes that [`Self::take_stream_data`] gives.
    pub fn feed_stream_data(&mut self, id: StreamIdentifier, channel: Channel) -> (r: Result<
        Option<(bool, Vec<u8>)>,
        ProtError,
    >)
        ensures
            match channel {
                Channel::Closed => r == Err::<Option<(bool, Vec<u8>)>, ProtError>(
                    ProtError::Extension(ExtensionKind::SenderError),
                ) && final(self)@ == old(self)@,
                Channel::Full => r == Ok::<Option<(bool, Vec<u8>)>, ProtError>(None) && final(self)@
                    == old(self)@,
                Channel::Room => r is Ok && final(self)@ == old(self)@.stream_data_taken(id).0
                    && taken_view(r->Ok_0) == old(self)@.stream_data_taken(id).1,
            },
    {
        match channel {
            Channel::Closed => Err(ProtError::Extension(ExtensionKind::SenderError)),
            Channel::Full => Ok(None),
            Channel::Room => Ok(self.take_stream_data(id)),
        }
    }

    /// Takes the bytes that came on the stream `id` since its message was
    /// built, to feed them to the body of that message: see
    /// [`InnerStreamView::data_taken`]. `None` also where the stream is gone.
    pub fn take_stream_data(&mut self, id: StreamIdentifier) -> (r: Option<(bool, Vec<u8>)>)
        ensures
            final(self)@ == old(self)@.stream_data_taken(id).0,
            taken_view(r) == old(self)@.stream_data_taken(id).1,
    {
        let ghost list = streams_view(self.recv_frames@);
        match self.recv_frames.remove(&id) {
            None => {
                proof {
                    assert(streams_view(self.recv_frames@) =~= list);
                }
                None
            },
            Some(known) => {
                let mut stream = known;
                let r = stream.take_data();
                let ghost after = stream@;
                self.recv_frames.insert(id, stream);
                proof {
                    assert(streams_view(self.recv_frames@) =~= list.insert(id, after));
                }
                r
            },
        }
    }
}

/// Bytes taken from a stream, with the flag that tells the last, by what they
/// hold.
pub open spec fn taken_view(r: Option<(bool, Vec<u8>)>) -> Option<(bool, Seq<u8>)> {
    match r {
        Some((is_end, data)) => Some((is_end, data@)),
        None => None,
    }
}

impl ControlView {
    /// The control after the bytes that came on the stream `id` since its
    /// message was built were taken from it, with those bytes: see
    /// [`InnerStreamView::data_taken`]. Nothing where the stream is gone.
    pub open spec fn stream_data_taken(self, id: StreamIdentifier) -> (
        ControlView,
        Option<(bool, Seq<u8>)>,
    ) {
        if self.streams.contains_key(id) {
            (
                ControlView {
                    streams: self.streams.insert(id, self.streams[id].data_taken().0),
                    ..self
                },
                self.streams[id].data_taken().1,
            )
        } else {
            (self, None)
        }
    }
}

impl ControlView {
    /// What is to be done about the source behind the body of the request at
    /// `i`, and the control after that body asked its semaphore; nothing
    /// where no request is at `i`.
    pub open spec fn request_pull_ready(self, i: int) -> (ControlView, PullAction) {
        if 0 <= i < self.requests.len() {
            let r = self.requests[i];
            let p = r.request.body.primed().0.pull_ready();
            (
                ControlView {
                    requests: self.requests.update(
                        i,
                        SendRequestView { request: RequestView { body: p.0, ..r.request }, ..r },
                    ),
                    ..self
                },
                p.1,
            )
        } else {
            (self, PullAction::Done)
        }
    }

    /// The control after the body of the request at `i` took in what a poll
    /// of its source gave, and what that body returns; nothing changes where
    /// no request is at `i`.
    pub open spec fn request_pulled(self, i: int, polled: PolledView) -> (
        ControlView,
        Result<bool, ProtError>,
    ) {
        if 0 <= i < self.requests.len() {
            let r = self.requests[i];
            let p = r.request.body.received(polled);
            (
                ControlView {
                    requests: self.requests.update(
                        i,
                        SendRequestView { request: RequestView { body: p.0, ..r.request }, ..r },
                    ),
                    ..self
                },
                p.1,
            )
        } else {
            (self, Ok(false))
        }
    }
}

impl Control {
    /// The number of requests on their way out.
    pub fn request_count(&self) -> (n: usize)
        ensures
            n == self@.requests.len(),
    {
        self.request_queue.len()
    }

    /// The stream of the request at `i` on its way out.
    pub fn request_stream_id(&self, i: usize) -> (id: Option<StreamIdentifier>)
        ensures
            id == if i < self@.requests.len() {
                Some(self@.requests[i as int].stream_id)
            } else {
                None
            },
    {
        if i < self.request_queue.len() {
            Some(self.request_queue[i].stream_id)
        } else {
            None
        }
    }

    /// Says what is to be done about the source behind the body of the
    /// request at `i`.
    pub fn request_source_ready(&mut self, i: usize) -> (action: PullAction)
        ensures
            final(self)@ == old(self)@.request_pull_ready(i as int).0,
            action == old(self)@.request_pull_ready(i as int).1,
    {
        if i >= self.request_queue.len() {
            return PullAction::Done;
        }
        let ghost list = send_requests_view(self.request_queue@);
        let mut req = self.request_queue.remove(i);
        proof {
            assert(list[i as int] == req@);
        }
        let _ = req.request.body.process_origin();
        let action = req.request.body.inner_poll_ready();
        let ghost after = req@;
        self.request_queue.insert(i, req);
        proof {
            assert(send_requests_view(self.request_queue@) =~= list.update(i as int, after));
        }
        action
    }

    /// Hands what a poll of its source gave to the body of the request at
    /// `i`.
    pub fn request_source_feed(&mut self, i: usize, polled: crate::body::Polled) -> (r: Result<
        bool,
        ProtError,
    >)
        ensures
            final(self)@ == old(self)@.request_pulled(i as int, polled@).0,
            r == old(self)@.request_pulled(i as int, polled@).1,
    {
        if i >= self.request_queue.len() {
            return Ok(false);
        }
        let ghost list = send_requests_view(self.request_queue@);
        let mut req = self.request_queue.remove(i);
        proof {
            assert(list[i as int] == req@);
        }
        let r = req.request.body.inner_poll_read(polled);
        let ghost after = req@;
        self.request_queue.insert(i, req);
        proof {
            assert(send_requests_view(self.request_queue@) =~= list.update(i as int, after));
        }
        r
    }

    /// Starts a new interval of the ceiling on the body of the response at
    /// `i`.
    pub fn response_source_refill(&mut self, i: usize)
        ensures
            final(self)@ == if i < old(self)@.responses.len() {
                ControlView {
                    responses: old(self)@.responses.update(
                        i as int,
                        SendResponseView {
                            response: ResponseView {
                                body: old(self)@.responses[i as int].response.body.refilled(),
                                ..old(self)@.responses[i as int].response
                            },
                            ..old(self)@.responses[i as int]
                        },
                    ),
                    ..old(self)@
                }
            } else {
                old(self)@
            },
    {
        if i >= self.response_queue.len() {
            return ;
        }
        let ghost list = send_responses_view(self.response_queue@);
        let mut res = self.response_queue.remove(i);
        proof {
            assert(list[i as int] == res@);
        }
        res.response.body.refill_rate_limit();
        let ghost after = res@;
        self.response_queue.insert(i, res);
        proof {
            assert(send_responses_view(self.response_queue@) =~= list.update(i as int, after));
        }
    }

    /// Starts a new interval of the ceiling on the body of the request at
    /// `i`.
    pub fn request_source_refill(&mut self, i: usize)
        ensures
            final(self)@ == if i < old(self)@.requests.len() {
                ControlView {
                    requests: old(self)@.requests.update(
                        i as int,
                        SendRequestView {
                            request: RequestView {
                                body: old(self)@.requests[i as int].request.body.refilled(),
                                ..old(self)@.requests[i as int].request
                            },
                            ..old(self)@.requests[i as int]
                        },
                    ),
                    ..old(self)@
                }
            } else {
                old(self)@
            },
    {
        if i >= self.request_queue.len() {
            return ;
        }
        let ghost list = send_requests_view(self.request_queue@);
        let mut req = self.request_queue.remove(i);
        proof {
            assert(list[i as int] == req@);
        }
        req.request.body.refill_rate_limit();
        let ghost after = req@;
        self.request_queue.insert(i, req);
        proof {
            assert(send_requests_view(self.request_queue@) =~= list.update(i as int, after));
        }
    }
}

} // verus!
