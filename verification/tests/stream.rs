use algorithm::buf::{Binary, BinaryMut, Bt};
use wenmeng::body::model::PullAction;
use wenmeng::body::source::{InnerReceiver, SourceKind};
use wenmeng::body::Polled;
use wenmeng::chunked::{encode_chunk_data, hex_encode, parse_chunk, ChunkStep};
use wenmeng::codec::Taken;
use wenmeng::coders::{read_all_data, read_to_end, InnerCompress, InnerDecompress};
use wenmeng::consts::{
    COMPRESS_METHOD_BROTLI, COMPRESS_METHOD_DEFLATE, COMPRESS_METHOD_GZIP, COMPRESS_METHOD_NONE,
    DEFAULT_MAX_READ_BUF,
};
use wenmeng::error::ExtensionKind;
use wenmeng::header::{
    contains_bytes, declared_len, eq_ignore_case, find_header, get_compress_method,
    header_contains, is_chunked, is_keep_alive, is_no_content,
};
use wenmeng::http1::io::is_http2_magic;
use wenmeng::recv_stream::ReadAll;
use wenmeng::{
    Body, Middleware, ProtError, ProtResult, RateLimitLayer, RecvRequest, RecvResponse, RecvStream,
    SendStream,
};

fn bytes_of(b: &BinaryMut) -> Vec<u8> {
    b.chunk().to_vec()
}

fn field(name: &str, value: &str) -> (Vec<u8>, Vec<u8>) {
    (name.as_bytes().to_vec(), value.as_bytes().to_vec())
}

#[test]
fn hex_digits_are_lower_case_without_leading_zeros() {
    assert_eq!(hex_encode(0), b"0".to_vec());
    assert_eq!(hex_encode(9), b"9".to_vec());
    assert_eq!(hex_encode(10), b"a".to_vec());
    assert_eq!(hex_encode(255), b"ff".to_vec());
    assert_eq!(hex_encode(4096), b"1000".to_vec());
    assert_eq!(hex_encode(0xdeadbeef), b"deadbeef".to_vec());
}

#[test]
fn chunk_is_length_line_bytes_line() {
    let mut out = BinaryMut::new();
    assert_eq!(encode_chunk_data(&mut out, b"Wiki"), 9);
    assert_eq!(bytes_of(&out), b"4\r\nWiki\r\n".to_vec());
    assert_eq!(encode_chunk_data(&mut out, &[b'x'; 26]), 32);
    assert_eq!(encode_chunk_data(&mut out, b""), 5);
    assert!(bytes_of(&out).ends_with(b"1a\r\nxxxxxxxxxxxxxxxxxxxxxxxxxx\r\n0\r\n\r\n"));
}

#[test]
fn chunk_parser_tells_partial_from_invalid() {
    assert_eq!(parse_chunk(b""), ChunkStep::Partial);
    assert_eq!(parse_chunk(b"4"), ChunkStep::Partial);
    assert_eq!(parse_chunk(b"4\r"), ChunkStep::Partial);
    assert_eq!(parse_chunk(b"4\r\nWik"), ChunkStep::Partial);
    assert_eq!(parse_chunk(b"4\r\nWiki\r"), ChunkStep::Partial);
    assert_eq!(parse_chunk(b"4\r\nWiki\r\n"), ChunkStep::Data { head: 3, size: 4 });
    assert_eq!(parse_chunk(b"A\r\n0123456789\r\nrest"), ChunkStep::Data { head: 3, size: 10 });
    assert_eq!(parse_chunk(b"0\r\n\r\n"), ChunkStep::Last { used: 5 });
    assert_eq!(parse_chunk(b"000\r\n\r\n"), ChunkStep::Last { used: 7 });
    assert_eq!(parse_chunk(b"\r\n"), ChunkStep::Invalid);
    assert_eq!(parse_chunk(b"4\nWiki\r\n"), ChunkStep::Invalid);
    assert_eq!(parse_chunk(b"4;ext\r\nWiki\r\n"), ChunkStep::Invalid);
    assert_eq!(parse_chunk(b"4\r\nWikiXX"), ChunkStep::Invalid);
    assert_eq!(parse_chunk(b"fffffffffffffffffffffffff"), ChunkStep::Invalid);
}

#[test]
fn chunked_coding_is_undone_by_decoding() {
    let pieces: Vec<Vec<u8>> = vec![b"a".to_vec(), vec![7u8; 300], b"hello world".to_vec(), vec![0u8; 4096]];
    let mut wire = BinaryMut::new();
    let mut plain = Vec::new();
    for piece in &pieces {
        encode_chunk_data(&mut wire, piece);
        plain.extend_from_slice(piece);
    }
    encode_chunk_data(&mut wire, b"");
    let mut stream = SendStream::empty();
    stream.set_left_body(usize::MAX);
    stream.set_chunked(true);
    // the bytes arrive in two pieces that cut a chunk in half
    let all = bytes_of(&wire);
    stream.put(&all[..320]);
    let mut got = BinaryMut::new();
    assert_eq!(stream.read_data(&mut got), Ok(301));
    assert!(!stream.is_end());
    stream.put(&all[320..]);
    assert_eq!(stream.read_data(&mut got), Ok(11 + 4096));
    assert!(stream.is_end());
    assert_eq!(bytes_of(&got), plain);
    assert_eq!(stream.unread_len(), 0);
}

#[test]
fn chunked_body_of_a_body_is_undone_by_the_read_side() {
    let mut body = Body::new_text("The quick brown fox".to_string());
    body.set_chunked(true);
    assert!(body.is_chunked());
    let mut wire = BinaryMut::new();
    body.read_data(&mut wire).unwrap();
    let mut stream = SendStream::empty();
    stream.set_left_body(usize::MAX);
    stream.set_chunked(true);
    stream.put(wire.chunk());
    stream.put(b"GET /next");
    let mut got = BinaryMut::new();
    stream.read_data(&mut got).unwrap();
    assert_eq!(bytes_of(&got), b"The quick brown fox".to_vec());
    assert!(stream.is_end());
    assert_eq!(stream.unread().to_vec(), b"GET /next".to_vec());
}

#[test]
fn body_of_known_length_takes_no_more_than_announced() {
    let mut stream = SendStream::empty();
    stream.put(b"0123456789");
    // before the head is read nothing is a body
    assert_eq!(stream.process_data(), Ok(()));
    assert_eq!(stream.unread_len(), 10);
    stream.set_left_body(4);
    assert_eq!(stream.take_data().map(|b| bytes_of(&b)), Ok(b"0123".to_vec()));
    assert!(stream.is_end());
    assert_eq!(stream.unread().to_vec(), b"456789".to_vec());
    stream.set_new_body();
    assert!(!stream.is_end());
    stream.set_left_body(0);
    assert!(stream.is_end());
    stream.set_new_body();
    stream.set_end_headers(true);
    stream.consume(2);
    assert_eq!(stream.take_unread(), b"6789".to_vec());
}

#[test]
fn body_of_unknown_length_takes_all() {
    let mut stream = SendStream::empty();
    stream.set_left_body(usize::MAX);
    stream.put(b"abc");
    stream.put(b"def");
    let mut got = BinaryMut::new();
    assert_eq!(stream.read_data(&mut got), Ok(6));
    assert!(!stream.is_end());
    assert_eq!(bytes_of(&got), b"abcdef".to_vec());
}

#[test]
fn bad_chunk_keeps_what_came_before_it() {
    let mut stream = SendStream::empty();
    stream.set_left_body(usize::MAX);
    stream.set_chunked(true);
    stream.put(b"2\r\nok\r\nxyz");
    let mut got = BinaryMut::new();
    assert_eq!(stream.read_data(&mut got), Err(ProtError::Parse));
    assert_eq!(bytes_of(&got), b"ok".to_vec());
    assert_eq!(stream.unread().to_vec(), b"xyz".to_vec());
}

#[test]
fn file_read_counts_down_the_range() {
    let mut source = InnerReceiver::new_file(10_000);
    assert!(!source.is_none());
    assert_eq!(source.kind, SourceKind::File);
    assert_eq!(source.file_read(4096), (false, 4096));
    assert_eq!(source.file_read(4096), (false, 4096));
    // the range ends inside this read
    assert_eq!(source.file_read(4096), (true, 1808));
    assert_eq!(source.data_size, 0);
    let mut short = InnerReceiver::new_file(10_000);
    assert_eq!(short.file_read(100), (true, 100));
    let mut exact = InnerReceiver::new_file(4096);
    assert_eq!(exact.file_read(4096), (true, 4096));
    assert!(InnerReceiver::new().is_none());
    assert_eq!(InnerReceiver::new_receiver().kind, SourceKind::Channel);
}

#[test]
fn range_must_not_end_before_it_starts() {
    let mut body = Body::new_file(1000);
    assert!(!body.is_end());
    assert_eq!(body.set_start_end(10, 5), Err(ProtError::Extension(ExtensionKind::RangeOrder)));
    assert_eq!(body.receiver().data_size, 1000);
    assert_eq!(body.set_start_end(100, 350), Ok(()));
    assert_eq!(body.receiver().data_size, 250);
    assert_eq!(body.receiver().start_pos, Some(100));
    assert_eq!(body.receiver().end_pos, Some(350));
    assert_eq!(body.file_read(4096), (true, 250));
    assert_eq!(body.set_start_end(7, 7), Ok(()));
    assert_eq!(body.file_read(0), (true, 0));
}

#[test]
fn rate_limit_throttles_the_source() {
    let mut rate = RateLimitLayer::new(10, 1000);
    assert!(rate.poll_ready());
    rate.poll_call(4);
    assert_eq!(rate.left, 6);
    rate.poll_call(100);
    assert_eq!(rate.left, 0);
    assert!(!rate.poll_ready());
    rate.refill();
    assert_eq!(rate.left, 10);
    let mut body = Body::new(BinaryMut::new(), false);
    body.set_rate_limit(RateLimitLayer::new(10, 1000));
    assert_eq!(body.inner_poll_ready(), PullAction::Poll);
    assert_eq!(body.inner_poll_read(Polled::Chunk(false, Binary::from(vec![1u8; 10]))), Ok(true));
    assert_eq!(body.inner_poll_ready(), PullAction::Throttled);
    assert_eq!(body.inner_poll_read(Polled::Pending), Ok(false));
    assert_eq!(body.origin_len(), 10);
}

#[test]
fn read_buffer_stays_within_the_mark_and_one_chunk() {
    let mut body = Body::new(BinaryMut::new(), false);
    body.set_max_read_buf(100);
    let mut polls = 0;
    loop {
        match body.inner_poll_ready() {
            PullAction::Poll => {
                body.inner_poll_read(Polled::Chunk(false, Binary::from(vec![0u8; 30]))).unwrap();
                polls += 1;
            }
            PullAction::Wait => break,
            _ => panic!("unexpected"),
        }
        assert!(body.origin_len() <= 100 + 30);
    }
    assert_eq!(polls, 4);
    assert_eq!(body.origin_len(), 120);
    // the producer stays suspended until a reader makes room
    assert!(!body.inner_poll_sem_ready());
    assert_eq!(body.inner_poll_ready(), PullAction::Wait);
    body.notify_some_read();
    assert!(body.inner_poll_sem_ready());
    body.check_over_limit();
    assert!(!body.inner_poll_sem_ready());
    let taken = body.binary();
    assert_eq!(taken.len(), 120);
    assert_eq!(body.origin_len(), 0);
    assert_eq!(body.inner_poll_ready(), PullAction::Poll);
}

#[test]
fn default_mark_is_ten_mebibytes() {
    assert_eq!(DEFAULT_MAX_READ_BUF, 10 * 1024 * 1024);
    let mut body = Body::new(BinaryMut::new(), false);
    assert_eq!(body.inner_poll_ready(), PullAction::Poll);
    body.inner_poll_read(Polled::Chunk(false, Binary::from(vec![0u8; 1024]))).unwrap();
    assert_eq!(body.inner_poll_ready(), PullAction::Poll);
}

#[test]
fn wait_all_takes_chunks_until_the_last() {
    let mut body = Body::new(BinaryMut::from(b"ab".to_vec()), false);
    assert!(body.wait_all());
    assert_eq!(body.body_len(), 2);
    assert_eq!(body.wait_next(false, &Binary::from(b"cd".to_vec())), (2, true));
    assert_eq!(body.wait_next(true, &Binary::from(b"e".to_vec())), (1, false));
    assert_eq!(body.copy_now().to_vec(), b"cde".to_vec());
    let out = body.read_now();
    assert_eq!(out.to_vec(), b"abcde".to_vec());
    let mut memory = Body::new_text("x".to_string());
    assert!(!memory.wait_all());
}

#[test]
fn read_all_gives_the_whole_body() {
    let mut body = Body::new(BinaryMut::from(b"ab".to_vec()), false);
    assert!(body.read_all_start());
    assert!(body.read_next(false, &Binary::from(b"cd".to_vec())));
    assert!(!body.read_next(true, &Binary::from(b"ef".to_vec())));
    let mut out = BinaryMut::new();
    assert_eq!(body.read_all(&mut out), Some(6));
    assert_eq!(bytes_of(&out), b"abcdef".to_vec());
    let mut bad = Body::new_binary(BinaryMut::from(b"no gzip at all".to_vec()));
    bad.set_compress_gzip();
    assert_eq!(bad.read_all(&mut out), None);
}

#[test]
fn poll_read_takes_no_more_than_the_reader_has_room_for() {
    let mut body = Body::new_text("0123456789".to_string());
    assert_eq!(body.poll_read(4), Ok(b"0123".to_vec()));
    assert_eq!(body.body_len(), 6);
    assert_eq!(body.poll_read(0), Ok(vec![]));
    assert_eq!(body.poll_read(100), Ok(b"456789".to_vec()));
    assert_eq!(body.poll_read(100), Ok(vec![]));
}

#[test]
fn serialize_writes_the_read_buffer_as_it_is() {
    let mut body = Body::empty();
    body.set_compress_origin_gzip();
    body.add_compress_method(COMPRESS_METHOD_GZIP);
    assert_eq!(body.cache_buffer(b"raw"), 0);
    assert_eq!(body.origin_len(), 3);
    let mut out = BinaryMut::new();
    assert_eq!(body.serialize(&mut out), 3);
    assert_eq!(bytes_of(&out), b"raw".to_vec());
    assert_eq!(body.serialize(&mut out), 0);
    let mut plain = Body::empty();
    assert_eq!(plain.cache_buffer(b"four"), 4);
}

#[test]
fn compress_setters_name_the_coding_that_comes_in() {
    let mut body = Body::empty();
    body.set_compress_gzip();
    assert_eq!((body.get_origin_compress(), body.get_now_compress()), (COMPRESS_METHOD_GZIP, COMPRESS_METHOD_NONE));
    body.set_compress_deflate();
    assert_eq!(body.get_origin_compress(), COMPRESS_METHOD_DEFLATE);
    body.set_compress_brotli();
    assert_eq!(body.get_origin_compress(), COMPRESS_METHOD_BROTLI);
    body.set_compress_origin_deflate();
    assert_eq!(body.get_origin_compress(), COMPRESS_METHOD_DEFLATE);
    body.set_compress_origin_brotli();
    assert_eq!(body.get_origin_compress(), COMPRESS_METHOD_BROTLI);
    assert_eq!(body.set_origin_compress_method(COMPRESS_METHOD_NONE), COMPRESS_METHOD_NONE);
    assert_eq!(body.add_compress_method(COMPRESS_METHOD_BROTLI), COMPRESS_METHOD_BROTLI);
    body.set_end(false);
    assert!(!body.is_end());
}

#[test]
fn gzip_to_brotli_is_decoded_and_encoded_again() {
    let input = vec![b'B'; 5000];
    let mut packer = Body::new_binary(BinaryMut::from(input.clone()));
    packer.add_compress_method(COMPRESS_METHOD_GZIP);
    let mut gz = BinaryMut::new();
    packer.read_data(&mut gz).unwrap();
    let mut middle = Body::new_binary(gz.clone());
    middle.set_origin_compress_method(COMPRESS_METHOD_GZIP);
    assert_eq!(middle.add_compress_method(COMPRESS_METHOD_BROTLI), COMPRESS_METHOD_BROTLI);
    let mut br = BinaryMut::new();
    middle.read_data(&mut br).unwrap();
    assert_ne!(bytes_of(&br), bytes_of(&gz));
    let mut opener = Body::new_binary(br);
    opener.set_compress_origin_brotli();
    let mut plain = BinaryMut::new();
    opener.read_data(&mut plain).unwrap();
    assert_eq!(bytes_of(&plain), input);
}

#[test]
fn gzip_in_chunks_is_framed_after_compression() {
    let mut body = Body::new_text("chunked and gzipped".to_string());
    body.add_compress_method(COMPRESS_METHOD_GZIP);
    body.set_chunked(true);
    let mut wire = BinaryMut::new();
    body.read_data(&mut wire).unwrap();
    assert!(bytes_of(&wire).ends_with(b"\r\n0\r\n\r\n"));
    let mut stream = SendStream::empty();
    stream.set_left_body(usize::MAX);
    stream.set_chunked(true);
    stream.put(wire.chunk());
    let packed = stream.take_data().unwrap();
    assert!(stream.is_end());
    assert_eq!(&bytes_of(&packed)[..2], &[0x1f, 0x8b]);
    let mut opener = Body::new_binary(packed);
    opener.set_compress_gzip();
    let mut plain = BinaryMut::new();
    opener.read_data(&mut plain).unwrap();
    assert_eq!(bytes_of(&plain), b"chunked and gzipped".to_vec());
}

#[test]
fn writers_and_readers_open_on_demand() {
    let mut writers = InnerCompress::new();
    writers.open_write_gz();
    writers.open_write_de();
    writers.open_write_br();
    let first = writers.write(COMPRESS_METHOD_DEFLATE, b"aaaaaaaaaaaaaaaaaaaaaaaaaaaaaaaa").unwrap();
    let last = writers.finish(COMPRESS_METHOD_DEFLATE).unwrap();
    let mut packed = first;
    packed.extend(last);
    assert!(!packed.is_empty());
    let mut readers = InnerDecompress::new();
    readers.open_reader_gz();
    readers.open_reader_de();
    readers.open_reader_br();
    readers.feed(COMPRESS_METHOD_DEFLATE, &packed);
    let mut out = BinaryMut::new();
    assert_eq!(read_all_data(&mut out, &mut readers, COMPRESS_METHOD_DEFLATE), Ok(32));
    assert_eq!(bytes_of(&out), vec![b'a'; 32]);
    readers.feed(COMPRESS_METHOD_BROTLI, &[0xff, 0xff, 0xff, 0xff]);
    assert!(matches!(readers.take(COMPRESS_METHOD_BROTLI, 16), Taken::Failed));
    let mut fresh = InnerDecompress::new();
    assert!(matches!(fresh.take(COMPRESS_METHOD_GZIP, 16), Taken::Starved));
}

#[test]
fn large_body_is_read_in_many_buffers() {
    let input: Vec<u8> = (0..50_000u32).map(|i| (i % 251) as u8).collect();
    for method in [COMPRESS_METHOD_GZIP, COMPRESS_METHOD_DEFLATE, COMPRESS_METHOD_BROTLI] {
        let mut packer = Body::new_binary(BinaryMut::from(input.clone()));
        packer.add_compress_method(method);
        let mut packed = BinaryMut::new();
        packer.read_data(&mut packed).unwrap();
        let mut opener = Body::new_binary(packed);
        opener.set_origin_compress_method(method);
        let mut plain = BinaryMut::new();
        assert_eq!(opener.read_data(&mut plain), Ok(50_000));
        assert_eq!(bytes_of(&plain), input);
    }
}

#[test]
fn recv_stream_reads_to_its_end() {
    let done = RecvStream::empty();
    assert!(done.is_end());
    assert!(matches!(done.read_all(), ReadAll::Done(b) if b.remaining() == 0));
    let mut stream = RecvStream::new(BinaryMut::from(b"ab".to_vec()), false);
    assert!(matches!(stream.read_all(), ReadAll::Receive));
    assert!(stream.read_next(Some((false, Binary::from(b"cd".to_vec())))).is_none());
    let all = stream.read_next(Some((true, Binary::from(b"ef".to_vec())))).unwrap();
    assert_eq!(bytes_of(&all), b"abcdef".to_vec());
    assert!(stream.is_end());
    let mut cut = RecvStream::new(BinaryMut::from(b"ab".to_vec()), false);
    assert_eq!(cut.read_next(None).map(|b| bytes_of(&b)), Some(b"ab".to_vec()));
    assert!(!cut.is_end());
}

#[test]
fn header_names_match_whatever_their_case() {
    assert!(eq_ignore_case(b"Content-Length", b"content-length"));
    assert!(eq_ignore_case(b"", b""));
    assert!(!eq_ignore_case(b"Content-Length", b"Content-Lengt"));
    assert!(!eq_ignore_case(b"a-b", b"a_b"));
    assert!(contains_bytes(b"gzip, deflate", b"deflate"));
    assert!(contains_bytes(b"x", b""));
    assert!(!contains_bytes(b"gzi", b"gzip"));
    let headers = vec![field("Host", "x"), field("transfer-ENCODING", "gzip, chunked"), field("host", "y")];
    assert_eq!(find_header(&headers, b"HOST"), Some(0));
    assert_eq!(find_header(&headers, b"Transfer-Encoding"), Some(1));
    assert_eq!(find_header(&headers, b"Accept"), None);
    assert!(header_contains(&headers, b"host", b"x"));
    assert!(!header_contains(&headers, b"host", b"y"));
    assert!(is_chunked(&headers));
    assert!(!is_chunked(&vec![field("Transfer-Encoding", "identity")]));
}

#[test]
fn content_coding_is_read_from_the_headers() {
    assert_eq!(get_compress_method(&vec![]), COMPRESS_METHOD_NONE);
    assert_eq!(get_compress_method(&vec![field("Content-Encoding", "gzip")]), COMPRESS_METHOD_GZIP);
    assert_eq!(get_compress_method(&vec![field("content-encoding", "deflate")]), COMPRESS_METHOD_DEFLATE);
    assert_eq!(get_compress_method(&vec![field("Content-Encoding", "br")]), COMPRESS_METHOD_BROTLI);
    assert_eq!(get_compress_method(&vec![field("Content-Encoding", "deflate, gzip")]), COMPRESS_METHOD_GZIP);
    assert_eq!(get_compress_method(&vec![field("Content-Encoding", "zstd")]), COMPRESS_METHOD_NONE);
    assert!(is_no_content(&vec![field("Content-Length", "0")]));
    assert!(is_no_content(&vec![field("content-length", "000")]));
    assert!(!is_no_content(&vec![field("Content-Length", "10")]));
    assert!(!is_no_content(&vec![field("Content-Length", "")]));
    assert!(!is_no_content(&vec![]));
}

#[test]
fn preface_is_told_from_other_bytes() {
    assert!(is_http2_magic(b"PRI * HTTP/2.0\r\n\r\nSM\r\n\r\n"));
    assert!(is_http2_magic(b"PRI * HTTP/2.0\r\n\r\nSM\r\n\r\nmore"));
    assert!(!is_http2_magic(b"PRI * HTTP/2.0\r\n\r\nSM\r\n\r"));
    assert!(!is_http2_magic(b"PRI * HTTP/2.0\r\n\r\nSN\r\n\r\n"));
    assert!(!is_http2_magic(b""));
}

#[test]
fn errors_have_a_text() {
    assert_eq!(ProtError::Extension(ExtensionKind::SenderError).message(), "sender error");
    assert_eq!(ProtError::Parse.message(), "malformed message");
    assert_ne!(ProtError::ClientUpgradeHttp2.message(), ProtError::Io.message());
}

struct Guard {
    seen: usize,
    errors: usize,
}

impl Middleware for Guard {
    fn process_request(&mut self, request: &mut RecvRequest) -> ProtResult<Option<RecvResponse>> {
        self.seen += 1;
        if request.head.path == b"/blocked".to_vec() {
            return Ok(Some(wenmeng::Response {
                head: wenmeng::message::ResponseHead { version: b"HTTP/1.1".to_vec(), status: 403, headers: vec![] },
                body: Body::empty(),
            }));
        }
        Ok(None)
    }

    fn process_response(&mut self, _request: &mut RecvRequest, response: &mut RecvResponse) -> ProtResult<()> {
        response.head.headers.push(field("x-seen", "1"));
        Ok(())
    }
}

#[test]
fn middleware_can_answer_in_place_of_the_handler() {
    let mut guard = Guard { seen: 0, errors: 0 };
    let mut open = wenmeng::Request {
        head: wenmeng::message::RequestHead { version: b"HTTP/1.1".to_vec(), method: b"GET".to_vec(), path: b"/".to_vec(), headers: vec![] },
        facts: wenmeng::message::RequestFacts { len: 0, is_partial: false, is_nobody: true },
        body: Body::empty(),
    };
    assert!(guard.process_request(&mut open).unwrap().is_none());
    open.head.path = b"/blocked".to_vec();
    let mut answer = guard.process_request(&mut open).unwrap().unwrap();
    assert_eq!(answer.head.status, 403);
    guard.process_response(&mut open, &mut answer).unwrap();
    assert_eq!(answer.head.headers, vec![field("x-seen", "1")]);
    guard.process_error(Some(&open), &ProtError::Io);
    assert_eq!((guard.seen, guard.errors), (2, 0));
    let (swapped, old) = answer.into(7u8);
    assert_eq!(swapped.body, 7);
    assert!(old.is_end());
    let (swapped, _) = open.into(());
    assert_eq!(swapped.head.path, b"/blocked".to_vec());
}

#[test]
fn compressed_body_arrives_in_pieces() {
    let input: Vec<u8> = (0..20_000u32).map(|i| (i % 97) as u8).collect();
    for method in [COMPRESS_METHOD_GZIP, COMPRESS_METHOD_DEFLATE, COMPRESS_METHOD_BROTLI] {
        let mut packer = Body::new_binary(BinaryMut::from(input.clone()));
        packer.add_compress_method(method);
        let mut packed = BinaryMut::new();
        packer.read_data(&mut packed).unwrap();
        let wire = bytes_of(&packed);
        let cut = wire.len() / 2;
        let mut body = Body::new(BinaryMut::new(), false);
        body.set_origin_compress_method(method);
        let mut plain = BinaryMut::new();
        assert_eq!(body.inner_poll_ready(), PullAction::Poll);
        assert_eq!(body.inner_poll_read(Polled::Chunk(false, Binary::from(wire[..cut].to_vec()))), Ok(true));
        body.read_data(&mut plain).unwrap();
        assert!(!body.is_process_end());
        assert_eq!(body.inner_poll_ready(), PullAction::Poll);
        assert_eq!(body.inner_poll_read(Polled::Chunk(true, Binary::from(wire[cut..].to_vec()))), Ok(true));
        body.read_data(&mut plain).unwrap();
        assert!(body.is_process_end());
        assert_eq!(bytes_of(&plain), input);
        assert_eq!(body.get_origin_compress(), COMPRESS_METHOD_NONE);
    }
}

#[test]
fn queued_response_takes_its_body_from_a_source() {
    let mut io = wenmeng::IoBuffer::new(true);
    assert_eq!(io.response_source_ready(), PullAction::Done);
    assert_eq!(io.response_source_feed(Polled::Closed), Ok(false));
    let res = wenmeng::Response {
        head: wenmeng::message::ResponseHead { version: b"HTTP/1.1".to_vec(), status: 200, headers: vec![] },
        body: Body::new(BinaryMut::from(b"ab".to_vec()), false),
    };
    io.send_response(res).unwrap();
    assert_eq!(io.response_count(), 1);
    assert_eq!(io.request_count(), 0);
    assert_eq!(io.response_source_ready(), PullAction::Poll);
    assert_eq!(io.response_source_feed(Polled::Chunk(false, Binary::from(b"cd".to_vec()))), Ok(true));
    io.poll_write().unwrap();
    assert!(io.write_buf().ends_with(b"\r\n\r\nabcd"));
    assert_eq!(io.response_count(), 1);
    assert_eq!(io.response_source_ready(), PullAction::Poll);
    assert_eq!(io.response_source_feed(Polled::Chunk(true, Binary::from(b"ef".to_vec()))), Ok(true));
    io.poll_write().unwrap();
    assert!(io.write_buf().ends_with(b"\r\n\r\nabcdef"));
    assert_eq!(io.response_count(), 0);
    io.response_source_refill();
    io.request_source_refill();
    assert_eq!(io.request_source_ready(), PullAction::Done);
    assert_eq!(io.request_source_feed(Polled::Pending), Ok(false));
}

#[test]
fn closed_source_ends_the_wait_for_the_whole_body() {
    let mut body = Body::new(BinaryMut::from(b"ab".to_vec()), false);
    assert!(body.wait_all());
    assert_eq!(body.wait_next(false, &Binary::from(b"cd".to_vec())), (2, true));
    assert!(!body.is_end());
    // the source closes without a last chunk
    body.wait_closed();
    assert!(body.is_end());
    let mut out = BinaryMut::new();
    assert_eq!(body.read_all(&mut out), Some(4));
    assert_eq!(bytes_of(&out), b"abcd".to_vec());
    assert!(body.is_process_end());
}

#[test]
fn reading_to_the_end_tells_a_stream_that_is_cut_off() {
    let mut writers = InnerCompress::new();
    let mut whole = writers.write(COMPRESS_METHOD_DEFLATE, &[b'a'; 64]).unwrap();
    whole.extend(writers.finish(COMPRESS_METHOD_DEFLATE).unwrap());
    let mut readers = InnerDecompress::new();
    assert!(!readers.is_open(COMPRESS_METHOD_DEFLATE));
    readers.feed(COMPRESS_METHOD_DEFLATE, &whole);
    readers.feed(COMPRESS_METHOD_DEFLATE, &[255]);
    assert!(readers.is_open(COMPRESS_METHOD_DEFLATE));
    let mut out = BinaryMut::new();
    assert_eq!(read_to_end(&mut out, &mut readers, COMPRESS_METHOD_DEFLATE), Ok(64));
    assert_eq!(bytes_of(&out), vec![b'a'; 64]);
    let mut cut = InnerDecompress::new();
    cut.feed(COMPRESS_METHOD_DEFLATE, &whole[..whole.len() - 2]);
    let mut out = BinaryMut::new();
    assert_eq!(read_to_end(&mut out, &mut cut, COMPRESS_METHOD_DEFLATE), Err(ProtError::Compression));
}

#[test]
fn declared_length_is_the_number_in_the_header() {
    let of = |value: &str| declared_len(&vec![field("Host", "x"), field("content-length", value)]);
    assert_eq!(of("5"), 5);
    assert_eq!(of("0"), 0);
    assert_eq!(of("007"), 7);
    assert_eq!(of("1024"), 1024);
    assert_eq!(of(""), 0);
    assert_eq!(of("abc"), 0);
    assert_eq!(of("12a"), 0);
    assert_eq!(of("-5"), 0);
    assert_eq!(of(" 5"), 0);
    assert_eq!(of("9223372036854775807"), isize::MAX);
    assert_eq!(of("9223372036854775808"), 0);
    assert_eq!(of("92233720368547758070"), 0);
    assert_eq!(of("99999999999999999999999999999999"), 0);
    assert_eq!(declared_len(&vec![field("Host", "x")]), 0);
    // the first header counts
    assert_eq!(declared_len(&vec![field("Content-Length", "3"), field("Content-Length", "4")]), 3);
}

#[test]
fn connection_header_says_whether_to_keep_the_connection() {
    assert!(is_keep_alive(b"HTTP/1.1", &vec![]));
    assert!(!is_keep_alive(b"HTTP/1.0", &vec![]));
    assert!(!is_keep_alive(b"HTTP/2", &vec![]));
    assert!(!is_keep_alive(b"HTTP/1.1", &vec![field("Connection", "close")]));
    assert!(!is_keep_alive(b"HTTP/1.1", &vec![field("connection", "Close")]));
    assert!(!is_keep_alive(b"HTTP/1.1", &vec![field("Connection", "keep-alive, close")]));
    assert!(is_keep_alive(b"HTTP/1.0", &vec![field("Connection", "Keep-Alive")]));
    assert!(is_keep_alive(b"HTTP/1.1", &vec![field("Connection", "Upgrade")]));
    assert!(!is_keep_alive(b"HTTP/1.0", &vec![field("Connection", "Upgrade")]));
}

#[test]
fn chunked_body_read_in_pieces_is_undone_by_the_read_side() {
    let mut body = Body::new(BinaryMut::from(b"ab".to_vec()), false);
    body.set_chunked(true);
    let mut wire = BinaryMut::new();
    body.read_data(&mut wire).unwrap();
    assert_eq!(bytes_of(&wire), b"2\r\nab\r\n".to_vec());
    // a read that finds nothing waiting writes no chunk
    body.read_data(&mut wire).unwrap();
    assert_eq!(bytes_of(&wire), b"2\r\nab\r\n".to_vec());
    body.inner_poll_read(Polled::Chunk(false, Binary::from(b"cde".to_vec()))).unwrap();
    body.inner_poll_read(Polled::Chunk(false, Binary::from(b"f".to_vec()))).unwrap();
    body.read_data(&mut wire).unwrap();
    body.inner_poll_read(Polled::Chunk(true, Binary::from(b"gh".to_vec()))).unwrap();
    body.read_data(&mut wire).unwrap();
    assert!(body.is_process_end());
    body.read_data(&mut wire).unwrap();
    assert_eq!(bytes_of(&wire), b"2\r\nab\r\n4\r\ncdef\r\n2\r\ngh\r\n0\r\n\r\n".to_vec());
    let mut stream = SendStream::empty();
    stream.set_left_body(usize::MAX);
    stream.set_chunked(true);
    stream.put(&bytes_of(&wire));
    let mut plain = BinaryMut::new();
    stream.read_data(&mut plain).unwrap();
    assert_eq!(bytes_of(&plain), b"abcdefgh".to_vec());
    assert!(stream.is_end());
}
