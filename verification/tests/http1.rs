use std::time::{Duration, Instant};

use algorithm::buf::{BinaryMut, Bt};
use wenmeng::body::Polled as SourcePolled;
use wenmeng::consts::{COMPRESS_METHOD_GZIP, COMPRESS_METHOD_NONE};
use wenmeng::error::ExtensionKind;
use wenmeng::body::source::Channel;
use wenmeng::http1::io::{Dealt, Next, Polled, Read, SendStatus, Wrote};
use wenmeng::message::{Request, RequestFacts, RequestHead, Response, ResponseHead};
use wenmeng::{Body, IoBuffer, ProtError, RecvRequest, RecvResponse};

fn header(name: &str, value: &str) -> (Vec<u8>, Vec<u8>) {
    (name.as_bytes().to_vec(), value.as_bytes().to_vec())
}

fn response(status: u16, headers: Vec<(Vec<u8>, Vec<u8>)>, body: Body) -> RecvResponse {
    Response { head: ResponseHead { version: b"HTTP/1.1".to_vec(), status, headers }, body }
}

fn request(method: &str, path: &str, headers: Vec<(Vec<u8>, Vec<u8>)>, body: Body) -> RecvRequest {
    Request {
        head: RequestHead { version: b"HTTP/1.1".to_vec(), method: method.as_bytes().to_vec(), path: path.as_bytes().to_vec(), headers },
        facts: RequestFacts { len: 0, is_partial: false, is_nobody: true },
        body,
    }
}

fn take_request(io: &mut IoBuffer) -> (RecvRequest, bool) {
    match io.poll_request_head() {
        Polled::Ready(req, fed) => (req, fed),
        Polled::Pending => panic!("pending"),
        Polled::Ended => panic!("ended"),
        Polled::Failed(e) => panic!("failed: {}", e.message()),
    }
}

fn take_response(io: &mut IoBuffer) -> (RecvResponse, bool) {
    match io.poll_response_head() {
        Polled::Ready(res, fed) => (res, fed),
        Polled::Pending => panic!("pending"),
        Polled::Ended => panic!("ended"),
        Polled::Failed(e) => panic!("failed: {}", e.message()),
    }
}

fn written(io: &mut IoBuffer) -> Vec<u8> {
    let out = io.write_buf().to_vec();
    io.advance_write(out.len());
    out
}

#[test]
fn send_status_clear_forgets_all() {
    let mut status = SendStatus {
        is_send_body: true,
        is_send_header: true,
        is_send_finish: true,
        is_read_header_end: true,
        is_read_finish: true,
        is_chunked: true,
        left_read_body_len: 7,
    };
    let mut write = status;
    write.clear_write();
    assert!(!write.is_send_body && !write.is_send_header && !write.is_send_finish);
    assert!(write.is_read_header_end && write.is_read_finish && write.is_chunked);
    assert_eq!(write.left_read_body_len, 7);
    let mut read = status;
    read.clear_read();
    assert!(read.is_send_body && read.is_send_header && read.is_send_finish);
    assert!(!read.is_read_header_end && !read.is_read_finish && !read.is_chunked);
    assert_eq!(read.left_read_body_len, 0);
    status.clear();
    assert_eq!(status, SendStatus::default());
}

#[test]
fn get_is_answered_with_exact_bytes() {
    let mut io = IoBuffer::new(true);
    assert!(io.is_idle());
    assert_eq!(io.poll_read(b"GET / HTTP/1.1\r\nHost: x\r\n\r\n"), Ok(27));
    assert_eq!(io.poll_request(Wrote::Ready(0), Read::Data), Next::Head);
    let (req, fed) = take_request(&mut io);
    assert!(!fed);
    assert_eq!(req.head.method, b"GET".to_vec());
    assert_eq!(req.head.path, b"/".to_vec());
    assert_eq!(req.head.headers, vec![header("Host", "x")]);
    assert!(req.body.is_end());
    let res = response(200, vec![header("Content-Length", "5")], Body::new_text("Hello".to_string()));
    assert_eq!(io.send_response(res), Ok(()));
    assert!(!io.is_idle());
    assert_eq!(io.poll_write(), Ok(43));
    assert_eq!(written(&mut io), b"HTTP/1.1 200 OK\r\nContent-Length: 5\r\n\r\nHello".to_vec());
    assert_eq!(io.deal_req(), 1);
    assert!(io.is_idle());
}

#[test]
fn pipelined_gets_are_answered_in_order() {
    let mut io = IoBuffer::new(true);
    let one = b"GET /1 HTTP/1.1\r\nHost: x\r\n\r\n";
    let mut all = Vec::new();
    for _ in 0..3 {
        all.extend_from_slice(one);
    }
    all[5] = b'1';
    all[5 + one.len()] = b'2';
    all[5 + 2 * one.len()] = b'3';
    assert_eq!(io.poll_read_all(&vec![all], false), Ok(Read::Data));
    let mut paths = Vec::new();
    for _ in 0..3 {
        let (req, _) = take_request(&mut io);
        paths.push(req.head.path.clone());
    }
    assert_eq!(paths, vec![b"/1".to_vec(), b"/2".to_vec(), b"/3".to_vec()]);
    // nothing more to read: the connection waits, it does not end
    assert!(matches!(io.poll_request_head(), Polled::Pending));
    assert_eq!(io.poll_request(Wrote::Ready(0), Read::Pending), Next::Pending);
    for text in ["one", "two", "three"] {
        let len = text.len().to_string();
        let res = response(200, vec![header("Content-Length", &len)], Body::new_text(text.to_string()));
        io.send_response(res).unwrap();
    }
    let mut out = Vec::new();
    for _ in 0..3 {
        io.poll_write().unwrap();
        out.extend(written(&mut io));
    }
    let expected = b"HTTP/1.1 200 OK\r\nContent-Length: 3\r\n\r\none\
HTTP/1.1 200 OK\r\nContent-Length: 3\r\n\r\ntwo\
HTTP/1.1 200 OK\r\nContent-Length: 5\r\n\r\nthree"
        .to_vec();
    assert_eq!(out, expected);
    assert_eq!(io.deal_req(), 3);
    assert_eq!(io.poll_request(Wrote::Ready(0), Read::Pending), Next::Pending);
}

#[test]
fn preface_asks_for_http2_with_the_bytes_behind_it() {
    let mut io = IoBuffer::new(true);
    let mut bytes = b"PRI * HTTP/2.0\r\n\r\nSM\r\n\r\n".to_vec();
    bytes.extend_from_slice(&[0, 0, 0, 4, 0, 0, 0, 0, 0]);
    io.poll_read(&bytes).unwrap();
    match io.poll_request_head() {
        Polled::Failed(ProtError::ServerUpgradeHttp2(rest)) => {
            assert_eq!(rest, vec![0, 0, 0, 4, 0, 0, 0, 0, 0]);
        }
        _ => panic!("no upgrade"),
    }
    // the bytes read are kept for the codec that takes over
    let (read, write) = io.into();
    assert_eq!(read.chunk().to_vec(), bytes);
    assert_eq!(write.remaining(), 0);
}

#[test]
fn preface_alone_asks_for_http2() {
    let mut io = IoBuffer::new(true);
    io.poll_read(b"PRI * HTTP/2.0\r\n\r\nSM\r\n\r\n").unwrap();
    assert!(matches!(io.poll_request_head(), Polled::Failed(ProtError::ServerUpgradeHttp2(rest)) if rest.is_empty()));
}

#[test]
fn malformed_head_is_a_parse_error() {
    let mut io = IoBuffer::new(true);
    io.poll_read(b"\x01\x02 nonsense\r\n\r\n").unwrap();
    assert!(matches!(io.poll_request_head(), Polled::Failed(ProtError::Parse)));
}

#[test]
fn half_a_head_waits_for_more() {
    let mut io = IoBuffer::new(true);
    io.poll_read(b"GET / HTTP/1.1\r\nHo").unwrap();
    assert!(matches!(io.poll_request_head(), Polled::Pending));
    io.poll_read(b"st: x\r\n\r\n").unwrap();
    let (req, _) = take_request(&mut io);
    assert_eq!(req.head.headers, vec![header("Host", "x")]);
}

#[test]
fn post_body_is_handed_on_as_it_arrives() {
    let mut io = IoBuffer::new(true);
    io.poll_read(b"POST /up HTTP/1.1\r\nContent-Length: 10\r\n\r\nhello").unwrap();
    let (mut req, fed) = take_request(&mut io);
    assert!(fed);
    assert!(!req.body.is_end());
    let mut got = BinaryMut::new();
    assert_eq!(req.body.read_data(&mut got), Ok(5));
    assert_eq!(got.chunk().to_vec(), b"hello".to_vec());
    // the rest of the body arrives
    io.poll_read(b"world").unwrap();
    assert_eq!(io.poll_request(Wrote::Ready(0), Read::Data), Next::Body);
    match io.do_deal_body(true, Channel::Room) {
        Ok(Dealt::Send(is_end, chunk)) => {
            assert!(is_end);
            assert_eq!(chunk.chunk().to_vec(), b"world".to_vec());
            assert_eq!(req.body.inner_poll_read(SourcePolled::Chunk(is_end, chunk)), Ok(true));
        }
        _ => panic!("nothing to send"),
    }
    assert!(matches!(io.do_deal_body(true, Channel::Room), Ok(Dealt::Done(false))));
    assert!(io.is_read_end());
    assert_eq!(io.poll_request_body(), Next::Pending);
    assert_eq!(req.body.read_data(&mut got), Ok(5));
    assert_eq!(got.chunk().to_vec(), b"helloworld".to_vec());
    assert!(req.body.is_process_end());
}

#[test]
fn closed_channel_is_a_sender_error() {
    let mut io = IoBuffer::new(true);
    io.poll_read(b"POST /up HTTP/1.1\r\nContent-Length: 10\r\n\r\nhello").unwrap();
    let (_req, fed) = take_request(&mut io);
    assert!(fed);
    io.poll_read(b"world").unwrap();
    assert!(matches!(
        io.do_deal_body(true, Channel::Closed),
        Err(ProtError::Extension(ExtensionKind::SenderError))
    ));
}

#[test]
fn full_channel_keeps_the_bytes_for_later() {
    let mut io = IoBuffer::new(true);
    io.poll_read(b"POST /up HTTP/1.1\r\nContent-Length: 10\r\n\r\nhello").unwrap();
    let (mut req, fed) = take_request(&mut io);
    assert!(fed);
    io.poll_read(b"world").unwrap();
    assert_eq!(io.poll_request(Wrote::Ready(0), Read::Data), Next::Body);
    assert!(matches!(io.do_deal_body(true, Channel::Full), Ok(Dealt::Wait)));
    // the body is under way: no head is looked for
    assert_eq!(io.poll_request_body(), Next::Pending);
    // nothing new was read, but the bytes still wait for room
    assert_eq!(io.poll_request(Wrote::Ready(0), Read::Pending), Next::Body);
    assert!(matches!(io.do_deal_body(true, Channel::Full), Ok(Dealt::Wait)));
    assert_eq!(io.poll_request(Wrote::Ready(0), Read::Pending), Next::Body);
    match io.do_deal_body(true, Channel::Room) {
        Ok(Dealt::Send(is_end, chunk)) => {
            assert!(is_end);
            assert_eq!(chunk.chunk().to_vec(), b"world".to_vec());
            assert_eq!(req.body.inner_poll_read(SourcePolled::Chunk(is_end, chunk)), Ok(true));
        }
        _ => panic!("nothing to send"),
    }
    assert!(matches!(io.do_deal_body(true, Channel::Closed), Ok(Dealt::Done(false))));
    assert_eq!(io.poll_request_body(), Next::Pending);
    assert_eq!(io.poll_request(Wrote::Ready(0), Read::Pending), Next::Pending);
    let mut got = BinaryMut::new();
    assert_eq!(req.body.read_data(&mut got), Ok(10));
    assert_eq!(got.chunk().to_vec(), b"helloworld".to_vec());
}

#[test]
fn server_waits_while_a_body_is_under_way() {
    let mut io = IoBuffer::new(true);
    io.poll_read(b"POST /up HTTP/1.1\r\nTransfer-Encoding: chunked\r\n\r\n5\r\nhello\r\n").unwrap();
    let (req, fed) = take_request(&mut io);
    assert!(fed);
    assert!(!req.body.is_end());
    // half a chunk arrives: nothing to hand on, and no head to look for
    io.poll_read(b"6\r\n wo").unwrap();
    assert_eq!(io.poll_request(Wrote::Ready(0), Read::Data), Next::Body);
    assert!(matches!(io.do_deal_body(true, Channel::Room), Ok(Dealt::Done(false))));
    assert_eq!(io.poll_request_body(), Next::Pending);
}

#[test]
fn zero_chunk_alone_ends_the_body() {
    let mut io = IoBuffer::new(true);
    io.poll_read(b"POST /up HTTP/1.1\r\nTransfer-Encoding: chunked\r\n\r\n5\r\nhello\r\n").unwrap();
    let (mut req, fed) = take_request(&mut io);
    assert!(fed);
    assert!(!req.body.is_end());
    io.poll_read(b"0\r\n\r\n").unwrap();
    assert_eq!(io.poll_request(Wrote::Ready(0), Read::Data), Next::Body);
    match io.do_deal_body(true, Channel::Room) {
        Ok(Dealt::Send(is_end, chunk)) => {
            assert!(is_end);
            assert_eq!(chunk.chunk().len(), 0);
            assert_eq!(req.body.inner_poll_read(SourcePolled::Chunk(is_end, chunk)), Ok(true));
        }
        _ => panic!("the end was not handed on"),
    }
    assert!(io.is_read_end());
    assert!(matches!(io.do_deal_body(true, Channel::Room), Ok(Dealt::Done(false))));
    assert_eq!(io.poll_request_body(), Next::Pending);
    assert!(req.body.is_end());
    let mut got = BinaryMut::new();
    assert_eq!(req.body.read_data(&mut got), Ok(5));
    assert_eq!(got.chunk().to_vec(), b"hello".to_vec());
    // the next request is read as usual
    io.poll_read(b"GET / HTTP/1.1\r\n\r\n").unwrap();
    assert_eq!(io.poll_request(Wrote::Ready(0), Read::Data), Next::Head);
    let (next, _) = take_request(&mut io);
    assert_eq!(next.head.method, b"GET".to_vec());
}

#[test]
fn chunked_body_in_pieces_comes_out_whole() {
    let mut io = IoBuffer::new(true);
    io.poll_read(b"POST /up HTTP/1.1\r\nTransfer-Encoding: chunked\r\n\r\n").unwrap();
    let (mut req, fed) = take_request(&mut io);
    assert!(fed);
    let mut flags: Vec<bool> = Vec::new();
    for piece in [&b"5\r\nhello\r\n"[..], &b"6\r\n world\r\n"[..], &b"0\r\n\r\n"[..]] {
        io.poll_read(piece).unwrap();
        match io.do_deal_body(true, Channel::Room) {
            Ok(Dealt::Send(is_end, chunk)) => {
                flags.push(is_end);
                req.body.inner_poll_read(SourcePolled::Chunk(is_end, chunk)).unwrap();
            }
            _ => panic!("nothing was handed on"),
        }
    }
    assert_eq!(flags, vec![false, false, true]);
    let mut got = BinaryMut::new();
    assert_eq!(req.body.read_data(&mut got), Ok(11));
    assert_eq!(got.chunk().to_vec(), b"hello world".to_vec());
}

#[test]
fn peer_closing_ends_the_body_that_is_read() {
    let mut client = IoBuffer::new(false);
    client.poll_read(b"HTTP/1.1 200 OK\r\nContent-Length: 10\r\n\r\nhello").unwrap();
    assert_eq!(client.poll_response(Read::Data), Next::Head);
    let (mut res, fed) = take_response(&mut client);
    assert!(fed);
    assert!(!res.body.is_end());
    client.poll_read(b"wor").unwrap();
    assert_eq!(client.poll_response(Read::Closed), Next::Body);
    match client.do_deal_body(false, Channel::Room) {
        Ok(Dealt::Send(is_end, chunk)) => {
            assert!(is_end);
            assert_eq!(chunk.chunk().to_vec(), b"wor".to_vec());
            assert_eq!(res.body.inner_poll_read(SourcePolled::Chunk(is_end, chunk)), Ok(true));
        }
        _ => panic!("the end was not handed on"),
    }
    assert!(matches!(client.do_deal_body(false, Channel::Room), Ok(Dealt::Done(true))));
    assert_eq!(client.poll_response_body(true), Next::Ended);
    assert!(res.body.is_end());
    assert_eq!(client.poll_response(Read::Pending), Next::Ended);
    assert_eq!(client.poll_response(Read::Data), Next::Ended);
    let mut got = BinaryMut::new();
    assert_eq!(res.body.read_data(&mut got), Ok(8));
    assert_eq!(got.chunk().to_vec(), b"hellowor".to_vec());
}

#[test]
fn peer_closing_with_a_full_channel_still_ends_the_body() {
    let mut client = IoBuffer::new(false);
    client.poll_read(b"HTTP/1.1 200 OK\r\nContent-Length: 10\r\n\r\nhello").unwrap();
    let (_res, fed) = take_response(&mut client);
    assert!(fed);
    assert_eq!(client.poll_response(Read::Closed), Next::Body);
    assert!(matches!(client.do_deal_body(false, Channel::Full), Ok(Dealt::Wait)));
    assert_eq!(client.poll_response_body(false), Next::Pending);
    assert_eq!(client.poll_response(Read::Pending), Next::Body);
    match client.do_deal_body(false, Channel::Room) {
        Ok(Dealt::Send(is_end, chunk)) => {
            assert!(is_end);
            assert_eq!(chunk.chunk().len(), 0);
        }
        _ => panic!("the end was not handed on"),
    }
    assert!(matches!(client.do_deal_body(false, Channel::Room), Ok(Dealt::Done(true))));
    assert_eq!(client.poll_response_body(true), Next::Ended);
    assert_eq!(client.poll_response(Read::Pending), Next::Ended);
}

#[test]
fn ready_time_stays_while_a_message_is_under_way() {
    let mut server = IoBuffer::new(true);
    let made = *server.get_ready_time();
    server.poll_read(b"GET / HTTP/1.1\r\n\r\n").unwrap();
    let _ = take_request(&mut server);
    assert_eq!(*server.get_ready_time(), made);
    server.send_response(response(200, vec![], Body::new(BinaryMut::from(b"abc".to_vec()), false))).unwrap();
    let idle = *server.get_ready_time();
    assert!(idle >= made);
    // the body has not ended: the response stays half sent
    server.poll_write().unwrap();
    assert!(!server.is_idle());
    assert_eq!(*server.get_ready_time(), idle);
    server.check_finish_status();
    assert_eq!(*server.get_ready_time(), idle);
}

#[test]
fn chunked_request_body_is_decoded() {
    let mut io = IoBuffer::new(true);
    io.poll_read(b"POST /up HTTP/1.1\r\nTransfer-Encoding: chunked\r\n\r\n5\r\nhello\r\n6\r\n world\r\n0\r\n\r\n")
        .unwrap();
    let (mut req, fed) = take_request(&mut io);
    assert!(fed);
    assert!(req.body.is_end());
    let mut got = BinaryMut::new();
    assert_eq!(req.body.read_data(&mut got), Ok(11));
    assert_eq!(got.chunk().to_vec(), b"hello world".to_vec());
}

#[test]
fn bad_chunk_is_a_parse_error() {
    let mut io = IoBuffer::new(true);
    io.poll_read(b"POST /up HTTP/1.1\r\nTransfer-Encoding: chunked\r\n\r\nzz\r\nhello\r\n").unwrap();
    assert!(matches!(io.poll_request_head(), Polled::Failed(ProtError::Parse)));
}

#[test]
fn head_round_trip_of_a_request() {
    let mut client = IoBuffer::new(false);
    let headers = vec![header("Host", "example.org"), header("Accept", "*/*")];
    client.send_request(request("GET", "/index.html", headers.clone(), Body::empty())).unwrap();
    client.poll_write().unwrap();
    let wire = written(&mut client);
    let mut server = IoBuffer::new(true);
    server.poll_read(&wire).unwrap();
    let (req, _) = take_request(&mut server);
    assert_eq!(req.head.method, b"GET".to_vec());
    assert_eq!(req.head.path, b"/index.html".to_vec());
    assert_eq!(req.head.headers, headers);
    assert_eq!(req.facts.len, wire.len());
}

#[test]
fn head_and_body_round_trip_of_a_response() {
    let mut server = IoBuffer::new(true);
    let headers = vec![header("Content-Type", "text/plain"), header("Content-Length", "11")];
    server.send_response(response(404, headers.clone(), Body::new_text("hello world".to_string()))).unwrap();
    server.poll_write().unwrap();
    let wire = written(&mut server);
    let mut client = IoBuffer::new(false);
    client.poll_read(&wire).unwrap();
    assert_eq!(client.poll_response(Read::Data), Next::Head);
    let (mut res, fed) = take_response(&mut client);
    assert!(fed);
    assert_eq!(res.head.status, 404);
    assert!(!res.is_success());
    assert_eq!(res.head.headers, headers);
    assert!(res.body.is_end());
    let mut got = BinaryMut::new();
    assert_eq!(res.body.read_data(&mut got), Ok(11));
    assert_eq!(got.chunk().to_vec(), b"hello world".to_vec());
}

#[test]
fn gzip_response_is_opened_by_the_client() {
    let mut server = IoBuffer::new(true);
    let mut body = Body::new_binary(BinaryMut::from(vec![b'A'; 1024]));
    assert_eq!(body.add_compress_method(COMPRESS_METHOD_GZIP), COMPRESS_METHOD_GZIP);
    server.send_response(response(200, vec![header("Content-Encoding", "gzip")], body)).unwrap();
    server.poll_write().unwrap();
    let wire = written(&mut server);
    assert!(wire.len() < 200);
    let mut client = IoBuffer::new(false);
    client.poll_read(&wire).unwrap();
    let (mut res, fed) = take_response(&mut client);
    assert!(fed);
    assert_eq!(res.body.get_origin_compress(), COMPRESS_METHOD_GZIP);
    assert_eq!(res.body.get_now_compress(), COMPRESS_METHOD_NONE);
    // the server closes the connection: the body has all its bytes
    assert_eq!(client.poll_response(Read::Closed), Next::Body);
    match client.do_deal_body(false, Channel::Room) {
        Ok(Dealt::Send(is_end, chunk)) => {
            assert!(is_end);
            assert_eq!(chunk.chunk().len(), 0);
            assert_eq!(res.body.inner_poll_read(SourcePolled::Chunk(is_end, chunk)), Ok(true));
        }
        _ => panic!("the end was not handed on"),
    }
    assert!(matches!(client.do_deal_body(false, Channel::Room), Ok(Dealt::Done(true))));
    assert_eq!(client.poll_response_body(true), Next::Ended);
    assert_eq!(client.poll_response(Read::Pending), Next::Ended);
    let mut got = BinaryMut::new();
    assert_eq!(res.body.read_data(&mut got), Ok(1024));
    assert_eq!(got.chunk().to_vec(), vec![b'A'; 1024]);
}

#[test]
fn switching_protocols_has_an_empty_body() {
    let mut client = IoBuffer::new(false);
    client.poll_read(b"HTTP/1.1 101 Switching Protocols\r\nUpgrade: h2c\r\nConnection: Upgrade\r\n\r\n").unwrap();
    let (res, fed) = take_response(&mut client);
    assert!(!fed);
    assert_eq!(res.head.status, 101);
    assert!(res.body.is_end());
}

#[test]
fn client_ends_when_the_peer_closes_before_a_head() {
    let mut client = IoBuffer::new(false);
    assert_eq!(client.poll_response(Read::Pending), Next::Pending);
    assert_eq!(client.poll_response(Read::Closed), Next::Head);
    assert!(matches!(client.poll_response_head(), Polled::Ended));
    assert_eq!(client.poll_response(Read::Data), Next::Ended);
}

#[test]
fn server_ends_when_the_peer_closes() {
    let io = IoBuffer::new(true);
    assert_eq!(io.poll_request(Wrote::Pending, Read::Closed), Next::Ended);
    assert_eq!(io.poll_request(Wrote::Pending, Read::Pending), Next::Pending);
    assert!(!io.is_active_close());
}

#[test]
fn client_is_idle_once_its_request_is_sent() {
    let mut client = IoBuffer::new(false);
    client.send_request(request("GET", "/", vec![header("Host", "x")], Body::empty())).unwrap();
    assert!(client.poll_write().unwrap() > 0);
    let wire = written(&mut client);
    assert!(wire.starts_with(b"GET / HTTP/1.1\r\n"));
    assert_eq!(client.deal_req(), 1);
    assert!(client.is_idle());
    assert!(client.is_write_end());
    // only a server closes a connection of itself
    assert!(!client.is_active_close());
}

fn answer(io: &mut IoBuffer, text: &str) -> Vec<u8> {
    let len = text.len().to_string();
    io.send_response(response(200, vec![header("Content-Length", &len)], Body::new_text(text.to_string())))
        .unwrap();
    io.poll_write().unwrap();
    written(io)
}

#[test]
fn server_closes_after_answering_a_request_that_asks_to_close() {
    let mut io = IoBuffer::new(true);
    io.poll_read(b"GET / HTTP/1.1\r\nHost: x\r\nConnection: close\r\n\r\n").unwrap();
    assert_eq!(io.poll_request(Wrote::Ready(0), Read::Data), Next::Head);
    let _ = take_request(&mut io);
    // the answer is not sent yet: the connection stays
    assert!(!io.is_active_close());
    assert_eq!(io.poll_request(Wrote::Ready(0), Read::Pending), Next::Pending);
    let wire = answer(&mut io, "bye");
    assert_eq!(wire, b"HTTP/1.1 200 OK\r\nContent-Length: 3\r\n\r\nbye".to_vec());
    assert!(io.is_active_close());
    assert_eq!(io.poll_request(Wrote::Ready(0), Read::Pending), Next::Ended);
    assert_eq!(io.poll_request(Wrote::Ready(0), Read::Data), Next::Ended);
}

#[test]
fn server_does_not_close_while_bytes_wait_to_be_written() {
    let mut io = IoBuffer::new(true);
    io.poll_read(b"GET / HTTP/1.1\r\nConnection: Close\r\n\r\n").unwrap();
    let _ = take_request(&mut io);
    io.send_response(response(200, vec![header("Content-Length", "3")], Body::new_text("bye".to_string())))
        .unwrap();
    io.poll_write().unwrap();
    assert!(io.is_active_close());
    assert_eq!(io.poll_request(Wrote::Pending, Read::Pending), Next::Pending);
    assert_eq!(io.poll_request(Wrote::Ready(0), Read::Pending), Next::Pending);
    let _ = written(&mut io);
    assert_eq!(io.poll_request(Wrote::Ready(0), Read::Pending), Next::Ended);
}

#[test]
fn keep_alive_is_the_rule_for_http11_and_the_exception_before() {
    // HTTP/1.1 without a word on the connection: it stays
    let mut io = IoBuffer::new(true);
    io.poll_read(b"GET / HTTP/1.1\r\nHost: x\r\n\r\n").unwrap();
    let (req, _) = take_request(&mut io);
    assert_eq!(req.head.version, b"HTTP/1.1".to_vec());
    let _ = answer(&mut io, "ok");
    assert!(!io.is_active_close());
    assert_eq!(io.poll_request(Wrote::Ready(0), Read::Pending), Next::Pending);
    // HTTP/1.0 without a word on the connection: it is closed
    let mut old = IoBuffer::new(true);
    old.poll_read(b"GET / HTTP/1.0\r\nHost: x\r\n\r\n").unwrap();
    let (req, _) = take_request(&mut old);
    assert_eq!(req.head.version, b"HTTP/1.0".to_vec());
    let _ = answer(&mut old, "ok");
    assert!(old.is_active_close());
    assert_eq!(old.poll_request(Wrote::Ready(0), Read::Pending), Next::Ended);
    // HTTP/1.0 that asks to keep the connection: it stays
    let mut kept = IoBuffer::new(true);
    kept.poll_read(b"GET / HTTP/1.0\r\nConnection: Keep-Alive\r\n\r\n").unwrap();
    let _ = take_request(&mut kept);
    let _ = answer(&mut kept, "ok");
    assert!(!kept.is_active_close());
}

#[test]
fn server_answers_every_request_before_it_closes() {
    let mut io = IoBuffer::new(true);
    io.poll_read(b"GET /1 HTTP/1.1\r\n\r\nGET /2 HTTP/1.1\r\nConnection: close\r\n\r\n").unwrap();
    let _ = take_request(&mut io);
    let _ = take_request(&mut io);
    let _ = answer(&mut io, "one");
    // the second request is not answered yet
    assert!(!io.is_active_close());
    assert_eq!(io.poll_request(Wrote::Ready(0), Read::Pending), Next::Pending);
    let _ = answer(&mut io, "two");
    assert!(io.is_active_close());
    assert_eq!(io.poll_request(Wrote::Ready(0), Read::Pending), Next::Ended);
    assert_eq!(io.deal_req(), 2);
}

#[test]
fn length_beyond_the_range_is_no_length() {
    let mut io = IoBuffer::new(true);
    io.poll_read(b"POST /up HTTP/1.1\r\nContent-Length: 9223372036854775808\r\n\r\nabc").unwrap();
    let (mut req, fed) = take_request(&mut io);
    assert!(fed);
    // no length is declared: the body goes on until the connection ends
    assert!(!req.body.is_end());
    let mut got = BinaryMut::new();
    assert_eq!(req.body.read_data(&mut got), Ok(3));
    let mut client = IoBuffer::new(false);
    client.poll_read(b"HTTP/1.1 200 OK\r\nContent-Length: 99999999999999999999999999\r\n\r\nabc").unwrap();
    let (res, fed) = take_response(&mut client);
    assert!(fed);
    assert!(!res.body.is_end());
}

#[test]
fn head_is_written_in_its_version() {
    let mut server = IoBuffer::new(true);
    let res = Response {
        head: ResponseHead { version: b"HTTP/1.0".to_vec(), status: 200, headers: vec![header("Content-Length", "0")] },
        body: Body::empty(),
    };
    server.send_response(res).unwrap();
    server.poll_write().unwrap();
    assert_eq!(written(&mut server), b"HTTP/1.0 200 OK\r\nContent-Length: 0\r\n\r\n".to_vec());
    let bad = Response {
        head: ResponseHead { version: b"HTTP/9".to_vec(), status: 200, headers: vec![] },
        body: Body::empty(),
    };
    server.send_response(bad).unwrap();
    assert_eq!(server.poll_write(), Err(ProtError::Parse));
    let mut client = IoBuffer::new(false);
    client.poll_read(b"HTTP/1.0 204 No Content\r\n\r\n").unwrap();
    let (res, _) = take_response(&mut client);
    assert_eq!(res.head.version, b"HTTP/1.0".to_vec());
    assert_eq!(res.head.status, 204);
}

#[test]
fn connection_holds_the_moment_at_which_it_became_idle() {
    let made = Instant::now();
    let mut server = IoBuffer::new_at(true, made);
    assert_eq!(*server.get_ready_time(), made);
    let later = made + Duration::from_secs(5);
    // nothing is half sent: the connection becomes idle at the moment given
    server.check_finish_status_at(later);
    assert_eq!(*server.get_ready_time(), later);
    let queued = later + Duration::from_secs(1);
    server
        .send_response_at(response(200, vec![], Body::new(BinaryMut::from(b"abc".to_vec()), false)), queued)
        .unwrap();
    assert_eq!(*server.get_ready_time(), queued);
    // the body has not ended: the response stays half sent, the moment stays
    let sent = queued + Duration::from_secs(1);
    assert!(server.poll_write_at(sent).is_ok());
    assert!(!server.is_idle());
    assert_eq!(*server.get_ready_time(), queued);
    server.check_finish_status_at(sent);
    assert_eq!(*server.get_ready_time(), queued);
    // a response that is sent to its end makes the connection idle
    let mut other = IoBuffer::new_at(true, made);
    other
        .send_response_at(response(200, vec![header("Content-Length", "2")], Body::new_text("ok".to_string())), made)
        .unwrap();
    assert!(other.poll_write_at(sent).is_ok());
    assert!(other.is_idle());
    assert_eq!(*other.get_ready_time(), sent);
    let mut client = IoBuffer::new_at(false, made);
    client.send_request_at(request("GET", "/", vec![], Body::empty()), later).unwrap();
    assert_eq!(*client.get_ready_time(), later);
}

#[test]
fn read_cache_comes_first() {
    let mut io = IoBuffer::new(true);
    io.set_read_cache(BinaryMut::from(b"GET / HT".to_vec()));
    io.poll_read(b"TP/1.1\r\n\r\n").unwrap();
    let (req, _) = take_request(&mut io);
    assert_eq!(req.head.method, b"GET".to_vec());
    assert!(io.get_ready_time().elapsed().as_secs() < 3600);
}

#[test]
fn poll_read_all_tells_what_the_round_gave() {
    let mut io = IoBuffer::new(true);
    assert_eq!(io.poll_read_all(&vec![], false), Ok(Read::Pending));
    assert_eq!(io.poll_read_all(&vec![b"GET".to_vec(), b" /".to_vec()], false), Ok(Read::Data));
    assert_eq!(io.poll_read_all(&vec![b" HTTP".to_vec()], true), Ok(Read::Closed));
    let (read, _) = io.into();
    assert_eq!(read.chunk().to_vec(), b"GET / HTTP".to_vec());
}
