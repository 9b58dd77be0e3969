use algorithm::buf::{Binary, BinaryMut, Bt};
use wenmeng::body::model::PullAction;
use wenmeng::body::Polled;
use wenmeng::consts::DEFAULT_INITIAL_WINDOW_SIZE;
use wenmeng::http2::control::Delivered;
use wenmeng::http2::frame::{
    Flag, Frame, FrameHeader, Kind, Settings, FLOW_CONTROL_ERROR, NO_ERROR, PROTOCOL_ERROR,
};
use wenmeng::http2::inner_stream::InnerStream;
use wenmeng::http2::priority_queue::PriorityQueue;
use wenmeng::http2::send_response::{decimal_encode, split_data};
use wenmeng::http2::state::{Handshake, StateGoAway, StateHandshake, StatePingPong, StateSettings};
use wenmeng::message::{Request, RequestFacts, RequestHead, Response, ResponseHead};
use wenmeng::{Body, Codec, Control, ControlConfig, Initiator, ProtError, SendRequest, SendResponse};

const PREFACE: &[u8] = b"PRI * HTTP/2.0\r\n\r\nSM\r\n\r\n";

fn field(name: &str, value: &str) -> (Vec<u8>, Vec<u8>) {
    (name.as_bytes().to_vec(), value.as_bytes().to_vec())
}

fn config() -> ControlConfig {
    ControlConfig {
        next_stream_id: 1,
        initial_max_send_streams: 100,
        max_send_buffer_size: 1000,
        reset_stream_duration: 1000,
        reset_stream_max: 10,
        remote_reset_stream_max: 10,
        settings: Settings::default(),
    }
}

fn headers_frame(id: u32, fields: Vec<(Vec<u8>, Vec<u8>)>, end_stream: bool) -> Frame {
    Frame::Headers {
        header: FrameHeader::new(Kind::Headers, Flag { end_headers: true, end_stream, ack: false }, id),
        fields,
    }
}

fn data_frame(id: u32, payload: &[u8], end_stream: bool) -> Frame {
    Frame::Data {
        header: FrameHeader::new(Kind::Data, Flag { end_headers: false, end_stream, ack: false }, id),
        payload: payload.to_vec(),
    }
}

fn settings_frame(settings: Settings) -> Frame {
    Frame::Settings {
        header: FrameHeader::new(Kind::Settings, Flag { end_headers: false, end_stream: false, ack: settings.is_ack }, 0),
        settings,
    }
}

fn get(path: &str) -> Vec<(Vec<u8>, Vec<u8>)> {
    vec![field(":method", "GET"), field(":path", path), field("host", "x")]
}

fn payload_of(frame: &Frame) -> Vec<u8> {
    match frame {
        Frame::Data { payload, .. } => payload.clone(),
        _ => panic!("no data frame"),
    }
}

#[test]
fn server_answers_a_get_on_stream_one() {
    let mut codec = Codec::new();
    let mut control = Control::new(config());
    codec.put(PREFACE);
    assert_eq!(control.poll_handshake(&mut codec), Handshake::Done);
    assert!(control.poll_setting());
    control.recv(settings_frame(Settings::default())).unwrap();
    control.recv(headers_frame(1, get("/"), true)).unwrap();
    let (req, handle) = match control.poll_request() {
        Delivered::Message(req, handle) => (req, handle),
        _ => panic!("no request"),
    };
    assert_eq!(req.head.method, b"GET".to_vec());
    assert_eq!(req.head.path, b"/".to_vec());
    assert_eq!(req.head.headers, vec![field("host", "x")]);
    assert!(req.body.is_end());
    assert_eq!(handle.stream_id, 1);
    assert_eq!(handle.method, b"GET".to_vec());
    assert_eq!(req.head.version, b"HTTP/2".to_vec());
    let res = Response {
        head: ResponseHead { version: b"HTTP/1.1".to_vec(), status: 200, headers: vec![field("content-length", "0")] },
        body: Body::empty(),
    };
    let (stream_id, res) = handle.send_response(res);
    control.send_response(res, stream_id).unwrap();
    let (frames, error) = control.poll_write(16384);
    assert_eq!(error, None);
    assert_eq!(frames.len(), 3);
    assert!(matches!(&frames[0], Frame::Settings { settings, .. } if !settings.is_ack));
    assert!(matches!(&frames[1], Frame::Settings { settings, .. } if settings.is_ack));
    match &frames[2] {
        Frame::Headers { header, fields } => {
            assert_eq!(header.id, 1);
            assert!(header.flag.end_stream);
            assert!(header.flag.end_headers);
            assert_eq!(fields, &vec![field(":status", "200"), field("content-length", "0")]);
        }
        _ => panic!("no headers"),
    }
    // nothing is left
    let (frames, error) = control.poll_write(16384);
    assert!(frames.is_empty());
    assert_eq!(error, None);
}

#[test]
fn post_of_100_kb_takes_seven_frames_under_a_window_of_16384() {
    let body = vec![7u8; 100_000];
    let req = Request {
        head: RequestHead { version: b"HTTP/1.1".to_vec(), method: b"POST".to_vec(), path: b"/up".to_vec(), headers: vec![] },
        facts: RequestFacts { len: 0, is_partial: false, is_nobody: false },
        body: Body::new_binary(BinaryMut::from(body.clone())),
    };
    let mut send = SendRequest::new(1, req, true);
    let (ended, frames) = send.encode_frames(16384);
    assert!(ended);
    // the head, then ceil(100000 / 16384) = 7 frames with bytes
    assert_eq!(frames.len(), 8);
    let mut queue = PriorityQueue::new(16384);
    queue.send_frames(1, frames).unwrap();
    assert!(matches!(queue.poll_handle(16384), Some(Frame::Headers { .. })));
    let mut got = Vec::new();
    let mut count = 0;
    while !queue.is_empty() {
        let frame = queue.poll_handle(16384).expect("a frame can go");
        let payload = payload_of(&frame);
        assert!(payload.len() <= 16384);
        assert_eq!(frame.is_end_stream(), queue.is_empty());
        got.extend(payload);
        count += 1;
        // both windows are used up: nothing goes until the peer gives room
        if !queue.is_empty() {
            assert_eq!(queue.window_of(1), 0);
            assert!(queue.poll_handle(16384).is_none());
            queue.window_update(1, 16384).unwrap();
            assert!(queue.poll_handle(16384).is_none());
            queue.window_update(0, 16384).unwrap();
        }
    }
    assert_eq!(count, 7);
    assert_eq!(got, body);
}

#[test]
fn data_frames_hold_the_body_and_the_last_ends_the_stream() {
    let bytes: Vec<u8> = (0..50u8).collect();
    let frames = split_data(3, &bytes, 16, true);
    assert_eq!(frames.len(), 4);
    let sizes: Vec<usize> = frames.iter().map(|f| f.payload_len()).collect();
    assert_eq!(sizes, vec![16, 16, 16, 2]);
    let flags: Vec<bool> = frames.iter().map(|f| f.is_end_stream()).collect();
    assert_eq!(flags, vec![false, false, false, true]);
    let joined: Vec<u8> = frames.iter().flat_map(|f| payload_of(f)).collect();
    assert_eq!(joined, bytes);
    assert!(frames.iter().all(|f| f.stream_id() == 3 && f.is_data()));
    // exactly full frames
    assert_eq!(split_data(3, &bytes[..32], 16, false).len(), 2);
    // no bytes: no frame, or an empty one that ends the stream
    assert_eq!(split_data(3, &[], 16, false).len(), 0);
    let end = split_data(3, &[], 16, true);
    assert_eq!(end.len(), 1);
    assert!(end[0].is_end_stream());
    assert_eq!(end[0].payload_len(), 0);
}

#[test]
fn server_answers_a_get_with_an_empty_body_and_no_headers() {
    let mut codec = Codec::new();
    let mut control = Control::new(config());
    codec.put(PREFACE);
    assert_eq!(control.poll_handshake(&mut codec), Handshake::Done);
    assert!(control.poll_setting());
    control.recv(settings_frame(Settings::default())).unwrap();
    control.recv(headers_frame(1, get("/"), true)).unwrap();
    let handle = match control.poll_request() {
        Delivered::Message(_, handle) => handle,
        _ => panic!("no request"),
    };
    let res = Response { head: ResponseHead { version: b"HTTP/1.1".to_vec(), status: 200, headers: vec![] }, body: Body::empty() };
    let (stream_id, res) = handle.send_response(res);
    control.send_response(res, stream_id).unwrap();
    let (frames, error) = control.poll_write(16384);
    assert_eq!(error, None);
    assert_eq!(frames.len(), 3);
    assert!(matches!(&frames[0], Frame::Settings { settings, .. } if !settings.is_ack));
    assert!(matches!(&frames[1], Frame::Settings { settings, .. } if settings.is_ack));
    match &frames[2] {
        Frame::Headers { header, fields } => {
            assert_eq!(header.id, 1);
            assert!(header.flag.end_stream);
            assert!(header.flag.end_headers);
            assert_eq!(fields, &vec![field(":status", "200")]);
        }
        _ => panic!("no headers"),
    }
    let (frames, error) = control.poll_write(16384);
    assert!(frames.is_empty());
    assert_eq!(error, None);
}

#[test]
fn empty_body_ends_the_stream_with_the_head() {
    let res = Response { head: ResponseHead { version: b"HTTP/1.1".to_vec(), status: 200, headers: vec![] }, body: Body::empty() };
    let mut send = SendResponse::new(1, None, res, b"GET".to_vec(), true);
    let (ended, frames) = send.encode_frames(16384);
    assert!(ended);
    assert_eq!(frames.len(), 1);
    match &frames[0] {
        Frame::Headers { header, fields } => {
            assert_eq!(header.id, 1);
            assert!(header.flag.end_headers);
            assert!(header.flag.end_stream);
            assert_eq!(fields, &vec![field(":status", "200")]);
        }
        _ => panic!("no headers"),
    }
    assert!(send.encode_header);
    let (ended, frames) = send.encode_frames(16384);
    assert!(ended);
    assert!(frames.is_empty());
}

#[test]
fn empty_request_body_ends_the_stream_with_the_head() {
    let req = Request {
        head: RequestHead { version: b"HTTP/1.1".to_vec(), method: b"GET".to_vec(), path: b"/".to_vec(), headers: vec![] },
        facts: RequestFacts { len: 0, is_partial: false, is_nobody: true },
        body: Body::empty(),
    };
    let mut send = SendRequest::new(3, req, true);
    let (ended, frames) = send.encode_frames(16384);
    assert!(ended);
    assert_eq!(frames.len(), 1);
    assert!(matches!(&frames[0], Frame::Headers { header, .. } if header.id == 3 && header.flag.end_stream));
    let (ended, frames) = send.encode_frames(16384);
    assert!(ended);
    assert!(frames.is_empty());
}

#[test]
fn pushed_response_with_an_empty_body_ends_on_the_promised_stream() {
    let res = Response { head: ResponseHead { version: b"HTTP/1.1".to_vec(), status: 200, headers: vec![] }, body: Body::empty() };
    let mut send = SendResponse::new(1, Some(2), res, b"GET".to_vec(), true);
    let (ended, frames) = send.encode_frames(16384);
    assert!(ended);
    assert_eq!(frames.len(), 2);
    assert!(matches!(&frames[0], Frame::PushPromise { header, promised_id, .. } if header.id == 1 && *promised_id == 2 && !header.flag.end_stream));
    assert!(matches!(&frames[1], Frame::Headers { header, .. } if header.id == 2 && header.flag.end_stream));
    assert_eq!(send.stream_id, 2);
}

#[test]
fn response_gives_head_then_body_frames() {
    let res = Response {
        head: ResponseHead { version: b"HTTP/1.1".to_vec(), status: 200, headers: vec![field("content-type", "text/plain")] },
        body: Body::new_text("0123456789".to_string()),
    };
    let mut send = SendResponse::new(5, None, res, b"GET".to_vec(), true);
    let (ended, frames) = send.encode_frames(4);
    assert!(ended);
    assert_eq!(frames.len(), 4);
    match &frames[0] {
        Frame::Headers { header, fields } => {
            assert_eq!(header.id, 5);
            assert!(!header.flag.end_stream);
            assert_eq!(fields, &vec![field(":status", "200"), field("content-type", "text/plain")]);
        }
        _ => panic!("no headers"),
    }
    assert_eq!(payload_of(&frames[1]), b"0123".to_vec());
    assert_eq!(payload_of(&frames[2]), b"4567".to_vec());
    assert_eq!(payload_of(&frames[3]), b"89".to_vec());
    assert!(frames[3].is_end_stream());
    // the stream is ended: nothing more comes
    let (ended, frames) = send.encode_frames(4);
    assert!(ended);
    assert!(frames.is_empty());
}

#[test]
fn pushed_response_is_promised_first() {
    let res = Response {
        head: ResponseHead { version: b"HTTP/1.1".to_vec(), status: 200, headers: vec![field("content-length", "0")] },
        body: Body::empty(),
    };
    let mut send = SendResponse::new(1, Some(2), res, b"GET".to_vec(), true);
    let (ended, frames) = send.encode_frames(0);
    assert!(ended);
    assert_eq!(frames.len(), 2);
    assert!(matches!(&frames[0], Frame::PushPromise { header, promised_id, .. } if header.id == 1 && *promised_id == 2));
    assert!(matches!(&frames[1], Frame::Headers { header, .. } if header.id == 2 && header.flag.end_stream));
    assert_eq!(send.stream_id, 2);
}

#[test]
fn body_that_ends_later_still_ends_the_stream() {
    let res = Response {
        head: ResponseHead { version: b"HTTP/1.1".to_vec(), status: 200, headers: vec![] },
        body: Body::new(BinaryMut::from(b"abc".to_vec()), false),
    };
    let mut send = SendResponse::new(1, None, res, b"GET".to_vec(), false);
    let (ended, frames) = send.encode_frames(16384);
    assert!(!ended);
    assert_eq!(frames.len(), 2);
    assert!(!frames[1].is_end_stream());
    send.response.body.set_end(true);
    let (ended, frames) = send.encode_frames(16384);
    assert!(ended);
    assert_eq!(frames.len(), 1);
    assert!(frames[0].is_end_stream());
    assert_eq!(frames[0].payload_len(), 0);
}

#[test]
fn status_in_decimal() {
    assert_eq!(decimal_encode(200), b"200".to_vec());
    assert_eq!(decimal_encode(0), b"0".to_vec());
    assert_eq!(decimal_encode(65535), b"65535".to_vec());
}

#[test]
fn requests_are_handed_out_in_the_order_their_heads_ended() {
    let mut control = Control::new(config());
    control.recv(headers_frame(5, get("/five"), false)).unwrap();
    control.recv(headers_frame(3, get("/three"), true)).unwrap();
    control.recv(data_frame(5, b"late", true)).unwrap();
    let mut order = Vec::new();
    while let Delivered::Message(req, handle) = control.poll_request() {
        order.push((handle.stream_id, req.head.path.clone(), req.body.is_end()));
    }
    assert_eq!(order, vec![(5, b"/five".to_vec(), true), (3, b"/three".to_vec(), true)]);
    assert!(matches!(control.poll_request(), Delivered::Pending));
}

#[test]
fn data_before_headers_is_a_protocol_violation() {
    let mut control = Control::new(config());
    assert_eq!(control.recv(data_frame(1, b"x", false)), Err(ProtError::ProtocolViolation));
    assert_eq!(*control.last_goaway_reason(), PROTOCOL_ERROR);
    let (frames, error) = control.poll_write(16384);
    assert_eq!(frames.len(), 1);
    assert!(matches!(&frames[0], Frame::GoAway { reason, last_stream_id, .. } if *reason == PROTOCOL_ERROR && *last_stream_id == 0));
    assert_eq!(error, Some(ProtError::GoAway(PROTOCOL_ERROR, Initiator::Library)));
}

#[test]
fn frames_after_the_end_of_a_stream_are_a_protocol_violation() {
    let mut stream = InnerStream::new(headers_frame(1, get("/"), true)).unwrap();
    assert!(stream.is_end_stream());
    assert_eq!(stream.push(data_frame(1, b"x", false)), Err(ProtError::ProtocolViolation));
    assert_eq!(stream.push(headers_frame(1, get("/"), true)), Err(ProtError::ProtocolViolation));
    assert!(InnerStream::new(data_frame(1, b"x", false)).is_err());
}

#[test]
fn trailers_must_end_the_stream() {
    let mut stream = InnerStream::new(headers_frame(1, get("/"), false)).unwrap();
    assert_eq!(stream.push(data_frame(1, b"abc", false)), Ok(()));
    assert_eq!(stream.push(headers_frame(1, vec![field("x-sum", "1")], false)), Err(ProtError::ProtocolViolation));
    assert_eq!(stream.push(headers_frame(1, vec![field("x-sum", "1")], true)), Ok(()));
    assert!(stream.is_end_stream());
}

#[test]
fn stream_feeds_the_body_of_its_request() {
    let mut stream = InnerStream::new(headers_frame(7, get("/seven"), false)).unwrap();
    stream.push(data_frame(7, b"ab", false)).unwrap();
    assert_eq!(stream.take_data(), None);
    let mut req = stream.build_request().unwrap();
    assert!(!req.body.is_end());
    let mut got = BinaryMut::new();
    assert_eq!(req.body.read_data(&mut got), Ok(2));
    assert_eq!(stream.take_data(), None);
    stream.push(data_frame(7, b"cd", false)).unwrap();
    assert_eq!(stream.take_data(), Some((false, b"cd".to_vec())));
    stream.push(data_frame(7, b"", true)).unwrap();
    assert_eq!(stream.take_data(), Some((true, vec![])));
    assert_eq!(stream.take_data(), None);
}

#[test]
fn response_needs_a_status_of_three_digits() {
    let mut ok = InnerStream::new(headers_frame(1, vec![field(":status", "204"), field("server", "x")], true)).unwrap();
    let res = ok.build_response().unwrap();
    assert_eq!(res.head.status, 204);
    assert_eq!(res.head.headers, vec![field("server", "x")]);
    let mut bad = InnerStream::new(headers_frame(1, vec![field(":status", "20"), field("server", "x")], true)).unwrap();
    assert!(matches!(bad.build_response(), Err(ProtError::ProtocolViolation)));
    let mut none = InnerStream::new(headers_frame(1, vec![field("server", "x")], true)).unwrap();
    assert!(matches!(none.build_request(), Err(ProtError::ProtocolViolation)));
}

#[test]
fn peer_settings_set_the_window_of_new_streams() {
    let mut control_config = config();
    assert_eq!(control_config.get_initial_window_size(), 65_535);
    assert_eq!(DEFAULT_INITIAL_WINDOW_SIZE, 65_535);
    let declared = Settings { initial_window_size: Some(1000), ..Settings::default() };
    control_config.apply_remote_settings(&declared);
    assert_eq!(control_config.get_initial_window_size(), 1000);
}

#[test]
fn larger_window_goes_first_and_then_the_earlier_frame() {
    let mut queue = PriorityQueue::new(100);
    queue.send_frames(1, vec![data_frame(1, b"one", false)]).unwrap();
    queue.send_frames(3, vec![data_frame(3, b"three", false)]).unwrap();
    queue.send_frames(5, vec![data_frame(5, b"five", false)]).unwrap();
    queue.window_update(3, 50).unwrap();
    queue.window_update(0, 1000).unwrap();
    queue.send_frame(settings_frame(Settings::ack()));
    // what steers the connection goes first
    assert!(matches!(queue.poll_handle(16384), Some(Frame::Settings { .. })));
    // stream 3 has the largest window
    assert_eq!(queue.poll_handle(16384).map(|f| f.stream_id()), Some(3));
    // streams 1 and 5 have equal windows: the earlier frame goes first
    assert_eq!(queue.poll_handle(16384).map(|f| f.stream_id()), Some(1));
    assert_eq!(queue.poll_handle(16384).map(|f| f.stream_id()), Some(5));
    assert!(queue.poll_handle(16384).is_none());
    assert_eq!(queue.window_of(3), 145);
    assert_eq!(queue.window_of(1), 97);
    assert_eq!(queue.conn_window(), 1100 - 12);
}

#[test]
fn frames_of_one_stream_keep_their_order() {
    let mut queue = PriorityQueue::new(4);
    queue.window_update(0, 1000).unwrap();
    queue.send_frames(1, vec![headers_frame(1, vec![field(":status", "200")], false), data_frame(1, b"0123456789", true)]).unwrap();
    assert!(matches!(queue.poll_handle(16384), Some(Frame::Headers { .. })));
    let first = queue.poll_handle(16384).unwrap();
    assert_eq!(payload_of(&first), b"0123".to_vec());
    assert!(!first.is_end_stream());
    assert!(queue.poll_handle(16384).is_none());
    assert_eq!(queue.len(), 1);
    queue.window_update(1, 100).unwrap();
    let second = queue.poll_handle(3).unwrap();
    assert_eq!(payload_of(&second), b"456".to_vec());
    let third = queue.poll_handle(3).unwrap();
    assert_eq!(payload_of(&third), b"789".to_vec());
    assert!(third.is_end_stream());
    assert!(queue.is_empty());
}

#[test]
fn window_beyond_the_largest_is_a_flow_control_error() {
    let mut queue = PriorityQueue::new(65_535);
    assert_eq!(queue.window_update(1, u32::MAX), Err(ProtError::FlowControl));
    assert_eq!(queue.window_of(1), 65_535);
    assert_eq!(queue.window_update(1, 2_147_483_647 - 65_535), Ok(()));
    assert_eq!(queue.window_of(1), 2_147_483_647);
    assert_eq!(queue.window_update(1, 1), Err(ProtError::FlowControl));
    let mut control = Control::new(config());
    let update = Frame::WindowUpdate { header: FrameHeader::new(Kind::WindowUpdate, Flag::zero(), 0), increment: u32::MAX };
    assert_eq!(control.recv(update), Err(ProtError::FlowControl));
    assert_eq!(*control.last_goaway_reason(), FLOW_CONTROL_ERROR);
}

#[test]
fn peer_that_sends_beyond_the_window_is_told_farewell() {
    let mut control = Control::new(config());
    control.recv(headers_frame(1, get("/"), false)).unwrap();
    let big = vec![0u8; 40_000];
    assert_eq!(control.recv(data_frame(1, &big, false)), Ok(()));
    // the window fell below its half: it was filled up, and the peer is told
    let (frames, _) = control.poll_write(16384);
    assert_eq!(frames.len(), 2);
    assert!(matches!(&frames[0], Frame::WindowUpdate { header, increment } if header.id == 0 && *increment == 40_000));
    assert!(matches!(&frames[1], Frame::WindowUpdate { header, increment } if header.id == 1 && *increment == 40_000));
    let too_big = vec![0u8; 65_536];
    assert_eq!(control.recv(data_frame(1, &too_big, false)), Err(ProtError::FlowControl));
    assert_eq!(*control.last_goaway_reason(), FLOW_CONTROL_ERROR);
}

#[test]
fn peer_farewell_without_error_lets_waiting_requests_through() {
    let mut control = Control::new(config());
    control.recv(headers_frame(1, get("/a"), true)).unwrap();
    control.recv(headers_frame(3, get("/b"), true)).unwrap();
    let bye = Frame::GoAway { header: FrameHeader::new(Kind::GoAway, Flag::zero(), 0), last_stream_id: 1, reason: NO_ERROR, debug: vec![] };
    control.recv(bye).unwrap();
    assert!(matches!(control.poll_request(), Delivered::Message(_, handle) if handle.stream_id == 1));
    assert!(matches!(control.poll_request(), Delivered::Message(_, handle) if handle.stream_id == 3));
    assert!(matches!(control.poll_request(), Delivered::Failed(ProtError::GoAway(0, Initiator::Library))));
}

#[test]
fn peer_farewell_for_an_error_fails_the_streams_above_the_last() {
    let mut control = Control::new(config());
    control.recv(headers_frame(1, get("/a"), true)).unwrap();
    control.recv(headers_frame(3, get("/b"), true)).unwrap();
    let bye = Frame::GoAway { header: FrameHeader::new(Kind::GoAway, Flag::zero(), 0), last_stream_id: 1, reason: PROTOCOL_ERROR, debug: vec![] };
    control.recv(bye).unwrap();
    assert!(matches!(control.poll_request(), Delivered::Message(_, handle) if handle.stream_id == 1));
    assert!(matches!(control.poll_request(), Delivered::Failed(ProtError::GoAway(1, Initiator::Library))));
}

#[test]
fn reset_forgets_the_stream() {
    let mut control = Control::new(config());
    control.recv(headers_frame(1, get("/a"), true)).unwrap();
    control.recv(headers_frame(3, get("/b"), true)).unwrap();
    control.recv(Frame::Reset { header: FrameHeader::new(Kind::Reset, Flag::zero(), 1), reason: 8 }).unwrap();
    assert!(matches!(control.poll_request(), Delivered::Message(_, handle) if handle.stream_id == 3));
    assert!(matches!(control.poll_request(), Delivered::Pending));
}

#[test]
fn ping_is_answered_with_its_payload() {
    let mut control = Control::new(config());
    control.recv(Frame::Ping { header: FrameHeader::new(Kind::Ping, Flag::zero(), 0), payload: 0x0102030405060708 }).unwrap();
    let (frames, error) = control.poll_write(16384);
    assert_eq!(error, None);
    assert_eq!(frames.len(), 1);
    assert!(matches!(&frames[0], Frame::Ping { header, payload } if header.flag.ack && *payload == 0x0102030405060708));
    let mut state = StatePingPong::new();
    state.receive(true, 9);
    assert!(state.poll_handle().is_none());
}

#[test]
fn client_opens_odd_streams() {
    let mut control = Control::new(config());
    assert_eq!(control.next_stream_id(), 1);
    assert_eq!(control.next_stream_id(), 3);
    let req = Request {
        head: RequestHead { version: b"HTTP/1.1".to_vec(), method: b"GET".to_vec(), path: b"/".to_vec(), headers: vec![field("content-length", "0")] },
        facts: RequestFacts { len: 0, is_partial: false, is_nobody: true },
        body: Body::empty(),
    };
    control.send_request(req).unwrap();
    let (frames, _) = control.poll_write(16384);
    assert_eq!(frames.len(), 1);
    match &frames[0] {
        Frame::Headers { header, fields } => {
            assert_eq!(header.id, 5);
            assert!(header.flag.end_stream);
            assert_eq!(fields, &vec![field(":method", "GET"), field(":path", "/"), field("content-length", "0")]);
        }
        _ => panic!("no headers"),
    }
    assert_eq!(control.next_stream_id(), 7);
}

#[test]
fn client_reads_a_response() {
    let mut control = Control::new(config());
    control.set_handshake_status(Binary::new(), true);
    control.set_setting_status(Settings::default(), true);
    control.recv(headers_frame(1, vec![field(":status", "200"), field("server", "x")], false)).unwrap();
    control.recv(data_frame(1, b"hi", true)).unwrap();
    match control.poll_response() {
        Delivered::Message(mut res, handle) => {
            assert_eq!(handle.stream_id, 1);
            assert_eq!(res.head.status, 200);
            let mut got = BinaryMut::new();
            assert_eq!(res.body.read_data(&mut got), Ok(2));
            assert_eq!(got.chunk().to_vec(), b"hi".to_vec());
        }
        _ => panic!("no response"),
    }
    assert!(control.build_request(&vec![]).is_none());
}

#[test]
fn handshake_of_server_and_client() {
    let mut codec = Codec::new();
    let mut server = StateHandshake::new_server();
    assert_eq!(server.poll_handle(&mut codec), Handshake::Pending);
    codec.put(&PREFACE[..10]);
    assert_eq!(server.poll_handle(&mut codec), Handshake::Pending);
    codec.put(&PREFACE[10..]);
    codec.put(&[0, 0, 0, 4, 0, 0, 0, 0, 0]);
    assert_eq!(server.poll_handle(&mut codec), Handshake::Done);
    assert_eq!(codec.poll_next(), Ok(Some(vec![0, 0, 0, 4, 0, 0, 0, 0, 0])));
    let mut bad = Codec::new();
    bad.put(b"GET / HTTP/1.1\r\nHost: example\r\n\r\n");
    assert_eq!(StateHandshake::new_server().poll_handle(&mut bad), Handshake::Failed);
    let mut out = Codec::new();
    let mut client = StateHandshake::new_client();
    assert_eq!(client.poll_handle(&mut out), Handshake::Done);
    assert_eq!(out.write_buf().to_vec(), PREFACE.to_vec());
    assert_eq!(client.poll_handle(&mut out), Handshake::Done);
    assert_eq!(out.write_buf().len(), 24);
}

#[test]
fn codec_refuses_a_frame_that_is_too_long() {
    let mut codec = Codec::new();
    // 8 MiB is the most that a frame may announce
    codec.put(&[0x80, 0, 0]);
    assert_eq!(codec.poll_next(), Ok(None));
    let mut over = Codec::new();
    over.put(&[0x80]);
    assert_eq!(over.poll_next(), Ok(None));
    over.put(&[0, 1]);
    assert_eq!(over.poll_next(), Err(ProtError::Io));
    // the bytes stay where they are
    assert_eq!(over.poll_next(), Err(ProtError::Io));
    let (read, _) = over.into_io_with_cache();
    assert_eq!(read.chunk().to_vec(), vec![0x80, 0, 1]);
    let mut most = Codec::new();
    most.put(&[0xff, 0xff, 0xff, 0, 0, 0, 0, 0, 0]);
    assert_eq!(most.poll_next(), Err(ProtError::Io));
}

#[test]
fn codec_cuts_frames_by_their_length() {
    let mut codec = Codec::new();
    assert!(codec.is_write_end());
    assert!(codec.poll_ready());
    assert_eq!(codec.max_send_frame_size(), 16_384);
    assert_eq!(codec.send_header_table_size(), 4_096);
    codec.put(&[0, 0, 3, 0, 1, 0, 0, 0, 1, b'a', b'b']);
    assert_eq!(codec.poll_next(), Ok(None));
    codec.put(&[b'c', 0, 0]);
    assert_eq!(codec.poll_next(), Ok(Some(vec![0, 0, 3, 0, 1, 0, 0, 0, 1, b'a', b'b', b'c'])));
    assert_eq!(codec.poll_next(), Ok(None));
    assert_eq!(codec.send_frame(&[1, 2, 3]), 3);
    assert!(!codec.is_write_end());
    assert!(!codec.poll_flush(2));
    assert!(codec.poll_flush(1));
    codec.send_frame(&vec![0u8; 16_385]);
    assert!(!codec.poll_ready());
    codec.set_max_send_frame_size(100);
    codec.set_send_header_table_size(200);
    assert_eq!(codec.max_send_frame_size(), 100);
    assert_eq!(codec.send_header_table_size(), 200);
    codec.set_cache_buf(BinaryMut::from(vec![9u8]), BinaryMut::from(vec![8u8]));
    let (read, write) = codec.into_io_with_cache();
    assert_eq!(read.chunk().to_vec(), vec![0, 0, 9]);
    assert_eq!(write.remaining(), 16_386);
}

#[test]
fn settings_are_sent_once_and_acknowledged() {
    let mut state = StateSettings::new(Settings::default());
    let (frame, wait) = state.poll_handle();
    assert!(frame.is_some());
    assert!(wait);
    let (frame, wait) = state.poll_handle();
    assert!(frame.is_none());
    assert!(wait);
    let (ack, done) = state.recv_setting(Settings { max_frame_size: Some(20_000), ..Settings::default() });
    assert!(matches!(ack, Some(Frame::Settings { settings, .. }) if settings.is_ack));
    assert!(!done);
    let (ack, done) = state.recv_setting(Settings::ack());
    assert!(ack.is_none());
    assert!(done);
    assert!(!state.poll_handle().1);
}

#[test]
fn farewell_names_the_last_stream() {
    let mut control = Control::new(config());
    control.recv(headers_frame(9, get("/"), true)).unwrap();
    control.go_away_now_data(NO_ERROR, Binary::from(b"bye".to_vec()));
    let (frames, error) = control.poll_write(16384);
    assert!(matches!(&frames[0], Frame::GoAway { last_stream_id, reason, debug, .. } if *last_stream_id == 9 && *reason == NO_ERROR && debug == &b"bye".to_vec()));
    assert_eq!(error, Some(ProtError::library_go_away(NO_ERROR)));
    let mut state = StateGoAway::new();
    assert_eq!(*state.reason(), NO_ERROR);
    assert!(state.poll_handle().is_none());
}

#[test]
fn continuation_must_follow_the_head_it_continues() {
    let open = Frame::Headers {
        header: FrameHeader::new(Kind::Headers, Flag::zero(), 1),
        fields: vec![field(":method", "GET")],
    };
    let more = |id: u32, end: bool| Frame::Continuation {
        header: FrameHeader::new(Kind::Continuation, Flag { end_headers: end, end_stream: false, ack: false }, id),
        fields: vec![field(":path", "/long")],
    };
    let mut control = Control::new(config());
    control.recv(open).unwrap();
    assert!(matches!(control.poll_request(), Delivered::Pending));
    control.recv(more(1, true)).unwrap();
    match control.poll_request() {
        Delivered::Message(req, handle) => {
            assert_eq!(handle.stream_id, 1);
            assert_eq!(req.head.path, b"/long".to_vec());
        }
        _ => panic!("no request"),
    }
    // a continuation of nothing
    assert_eq!(control.recv(more(1, true)), Err(ProtError::ProtocolViolation));
    // another frame between a head and its continuation
    let mut control = Control::new(config());
    control.recv(Frame::Headers { header: FrameHeader::new(Kind::Headers, Flag::zero(), 1), fields: vec![] }).unwrap();
    assert_eq!(control.recv(headers_frame(3, get("/"), true)), Err(ProtError::ProtocolViolation));
    assert_eq!(*control.last_goaway_reason(), PROTOCOL_ERROR);
    // a continuation on another stream
    let mut control = Control::new(config());
    control.recv(Frame::Headers { header: FrameHeader::new(Kind::Headers, Flag::zero(), 1), fields: vec![] }).unwrap();
    assert_eq!(control.recv(more(3, true)), Err(ProtError::ProtocolViolation));
}

#[test]
fn trailers_do_not_hand_out_the_request_again() {
    let mut control = Control::new(config());
    assert_eq!(control.recv_frame(headers_frame(1, get("/"), false)), Ok(Some(true)));
    assert_eq!(control.recv_frame(data_frame(1, b"abc", false)), Ok(None));
    assert_eq!(control.recv_frame(headers_frame(1, vec![field("x-sum", "6")], true)), Ok(None));
    assert_eq!(control.recv_frame(settings_frame(Settings::default())), Ok(None));
    assert!(matches!(control.poll_request(), Delivered::Message(..)));
    assert!(matches!(control.poll_request(), Delivered::Pending));
    assert_eq!(control.take_stream_data(1), None);
    assert_eq!(control.take_stream_data(9), None);
}

#[test]
fn queued_response_is_fed_from_its_source() {
    let mut control = Control::new(config());
    let res = Response {
        head: ResponseHead { version: b"HTTP/1.1".to_vec(), status: 200, headers: vec![] },
        body: Body::new(BinaryMut::from(b"ab".to_vec()), false),
    };
    control.send_response(res, 1).unwrap();
    assert_eq!(control.response_count(), 1);
    assert_eq!(control.response_stream_id(0), Some(1));
    assert_eq!(control.response_stream_id(1), None);
    assert_eq!(control.response_source_ready(0), PullAction::Poll);
    assert_eq!(control.response_source_ready(5), PullAction::Done);
    assert_eq!(control.response_source_feed(0, Polled::Chunk(true, Binary::from(b"cd".to_vec()))), Ok(true));
    assert_eq!(control.response_source_feed(5, Polled::Closed), Ok(false));
    control.response_source_refill(0);
    let (frames, error) = control.poll_write(16384);
    assert_eq!(error, None);
    assert_eq!(frames.len(), 2);
    assert_eq!(payload_of(&frames[1]), b"abcd".to_vec());
    assert!(frames[1].is_end_stream());
    assert_eq!(control.response_count(), 0);
    assert_eq!(control.request_count(), 0);
    assert_eq!(control.request_stream_id(0), None);
    assert_eq!(control.request_source_ready(0), PullAction::Done);
    assert_eq!(control.request_source_feed(0, Polled::Pending), Ok(false));
    control.request_source_refill(0);
}

#[test]
fn one_round_of_sending_takes_no_more_than_its_share() {
    let mut small = config();
    small.max_send_buffer_size = 2;
    let mut control = Control::new(small);
    for id in [1u32, 3, 5] {
        let res = Response {
            head: ResponseHead { version: b"HTTP/1.1".to_vec(), status: 200, headers: vec![field("content-length", "0")] },
            body: Body::empty(),
        };
        control.send_response(res, id).unwrap();
    }
    let (frames, _) = control.poll_write(16384);
    assert_eq!(frames.iter().map(|f| f.stream_id()).collect::<Vec<u32>>(), vec![1, 3]);
    let (frames, _) = control.poll_write(16384);
    assert_eq!(frames.iter().map(|f| f.stream_id()).collect::<Vec<u32>>(), vec![5]);
}
