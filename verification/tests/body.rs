use algorithm::buf::{Binary, BinaryMut, Bt};
use wenmeng::body::model::PullAction;
use wenmeng::body::Polled;
use wenmeng::consts::{
    COMPRESS_METHOD_BROTLI, COMPRESS_METHOD_DEFLATE, COMPRESS_METHOD_GZIP, COMPRESS_METHOD_NONE,
};
use wenmeng::{Body, ProtError};

fn bytes_of(b: &BinaryMut) -> Vec<u8> {
    b.chunk().to_vec()
}

fn through(method: i8, input: &[u8]) -> Vec<u8> {
    // compress with one body, decompress with another
    let mut packer = Body::new_binary(BinaryMut::from(input.to_vec()));
    assert_eq!(packer.add_compress_method(method), method);
    let mut packed = BinaryMut::new();
    packer.read_data(&mut packed).unwrap();
    assert!(packer.is_process_end());
    let mut opener = Body::new_binary(packed.clone());
    opener.set_origin_compress_method(method);
    let mut plain = BinaryMut::new();
    opener.read_data(&mut plain).unwrap();
    assert_ne!(bytes_of(&packed), input.to_vec());
    bytes_of(&plain)
}

#[test]
fn plain_body_passes_through() {
    let mut body = Body::new_text("Hello".to_string());
    let mut out = BinaryMut::new();
    assert_eq!(body.read_data(&mut out), Ok(5));
    assert_eq!(bytes_of(&out), b"Hello".to_vec());
    assert!(body.is_end());
    assert!(body.is_process_end());
    // terminal: nothing more comes
    assert_eq!(body.read_data(&mut out), Ok(0));
    assert_eq!(bytes_of(&out), b"Hello".to_vec());
}

#[test]
fn gzip_round_trip_of_1024_a() {
    let input = vec![b'A'; 1024];
    assert_eq!(through(COMPRESS_METHOD_GZIP, &input), input);
}

#[test]
fn deflate_round_trip() {
    let input = b"deflate deflate deflate deflate".to_vec();
    assert_eq!(through(COMPRESS_METHOD_DEFLATE, &input), input);
}

#[test]
fn brotli_round_trip() {
    let input = b"brotli brotli brotli brotli brotli".to_vec();
    assert_eq!(through(COMPRESS_METHOD_BROTLI, &input), input);
}

#[test]
fn same_coding_in_and_out_is_left_alone() {
    let mut body = Body::new_binary(BinaryMut::from(b"not really gzip".to_vec()));
    body.set_origin_compress_method(COMPRESS_METHOD_GZIP);
    assert_eq!(body.add_compress_method(COMPRESS_METHOD_GZIP), COMPRESS_METHOD_NONE);
    let mut out = BinaryMut::new();
    assert_eq!(body.read_data(&mut out), Ok(15));
    assert_eq!(bytes_of(&out), b"not really gzip".to_vec());
}

#[test]
fn unknown_coding_fails_the_body() {
    let mut body = Body::new_binary(BinaryMut::from(b"abc".to_vec()));
    body.set_origin_compress_method(9);
    let mut out = BinaryMut::new();
    assert_eq!(body.read_data(&mut out), Err(ProtError::UnknownCompress));
    assert!(body.is_end());
    assert!(body.is_process_end());
    assert_eq!(body.read_data(&mut out), Ok(0));
    assert_eq!(out.remaining(), 0);
}

#[test]
fn bad_gzip_input_fails_the_body() {
    let mut body = Body::new_binary(BinaryMut::from(vec![1u8, 2, 3, 4, 5, 6, 7, 8, 9, 10, 11, 12]));
    body.set_compress_gzip();
    let mut out = BinaryMut::new();
    assert_eq!(body.read_data(&mut out), Err(ProtError::Compression));
    assert!(body.is_process_end());
}

#[test]
fn chunked_body_ends_with_the_last_chunk() {
    let mut body = Body::only(Binary::from(b"Hello".to_vec()));
    body.set_chunked(true);
    let mut out = BinaryMut::new();
    assert_eq!(body.read_data(&mut out), Ok(15));
    assert_eq!(bytes_of(&out), b"5\r\nHello\r\n0\r\n\r\n".to_vec());
}

#[test]
fn empty_chunked_body_is_the_last_chunk_alone() {
    let mut body = Body::empty();
    body.set_chunked(true);
    let mut out = BinaryMut::new();
    assert_eq!(body.read_data(&mut out), Ok(5));
    assert_eq!(bytes_of(&out), b"0\r\n\r\n".to_vec());
}

#[test]
fn semaphore_closes_at_the_high_water_mark() {
    let mut body = Body::new(BinaryMut::new(), false);
    body.set_max_read_buf(8);
    assert_eq!(body.inner_poll_ready(), PullAction::Poll);
    assert_eq!(body.inner_poll_read(Polled::Chunk(false, Binary::from(vec![0u8; 5]))), Ok(true));
    assert_eq!(body.origin_len(), 5);
    assert_eq!(body.inner_poll_ready(), PullAction::Poll);
    assert_eq!(body.inner_poll_read(Polled::Chunk(false, Binary::from(vec![0u8; 5]))), Ok(true));
    assert_eq!(body.origin_len(), 10);
    // the mark was reached: the producer has to wait, however often it asks
    assert_eq!(body.inner_poll_ready(), PullAction::Wait);
    assert_eq!(body.inner_poll_ready(), PullAction::Wait);
    // a reader drains the body
    let mut out = BinaryMut::new();
    assert_eq!(body.read_data(&mut out), Ok(10));
    assert_eq!(body.origin_len(), 0);
    assert_eq!(body.inner_poll_ready(), PullAction::Poll);
    assert_eq!(body.inner_poll_read(Polled::Closed), Ok(true));
    assert_eq!(body.inner_poll_ready(), PullAction::Done);
    assert!(body.is_end());
}

fn packed(method: i8, input: &[u8]) -> Vec<u8> {
    let mut packer = Body::new_binary(BinaryMut::from(input.to_vec()));
    assert_eq!(packer.add_compress_method(method), method);
    let mut out = BinaryMut::new();
    packer.read_data(&mut out).unwrap();
    bytes_of(&out)
}

#[test]
fn stream_that_is_cut_off_fails_the_body() {
    let input: Vec<u8> = (0..5_000u32).map(|i| (i * 7 % 251) as u8).collect();
    for method in [COMPRESS_METHOD_GZIP, COMPRESS_METHOD_DEFLATE, COMPRESS_METHOD_BROTLI] {
        let whole = packed(method, &input);
        let half = whole[..whole.len() / 2].to_vec();
        let mut body = Body::new_binary(BinaryMut::from(half));
        body.set_origin_compress_method(method);
        let mut out = BinaryMut::new();
        assert_eq!(body.read_data(&mut out), Err(ProtError::Compression));
        assert!(body.is_process_end());
    }
}

#[test]
fn gzip_stream_without_its_last_byte_fails_the_body() {
    let whole = packed(COMPRESS_METHOD_GZIP, &vec![b'A'; 1024]);
    assert_eq!(whole[whole.len() - 1], 0);
    let mut body = Body::new_binary(BinaryMut::from(whole[..whole.len() - 1].to_vec()));
    body.set_origin_compress_method(COMPRESS_METHOD_GZIP);
    let mut out = BinaryMut::new();
    assert_eq!(body.read_data(&mut out), Err(ProtError::Compression));
}

#[test]
fn cut_off_stream_is_no_error_before_the_body_ends() {
    let input: Vec<u8> = (0..5_000u32).map(|i| (i * 7 % 251) as u8).collect();
    for method in [COMPRESS_METHOD_GZIP, COMPRESS_METHOD_DEFLATE, COMPRESS_METHOD_BROTLI] {
        let whole = packed(method, &input);
        let cut = whole.len() / 2;
        let mut body = Body::new(BinaryMut::from(whole[..cut].to_vec()), false);
        body.set_origin_compress_method(method);
        let mut out = BinaryMut::new();
        body.read_data(&mut out).unwrap();
        assert!(!body.is_process_end());
        assert_eq!(body.inner_poll_read(Polled::Chunk(true, Binary::from(whole[cut..].to_vec()))), Ok(true));
        body.read_data(&mut out).unwrap();
        assert_eq!(bytes_of(&out), input);
        assert!(body.is_process_end());
    }
}

#[test]
fn body_that_ends_without_a_byte_in_its_coding_is_empty() {
    for method in [COMPRESS_METHOD_GZIP, COMPRESS_METHOD_DEFLATE, COMPRESS_METHOD_BROTLI] {
        let mut body = Body::new(BinaryMut::new(), false);
        body.set_origin_compress_method(method);
        assert_eq!(body.inner_poll_ready(), PullAction::Poll);
        assert_eq!(body.inner_poll_read(Polled::Chunk(true, Binary::from(Vec::new()))), Ok(true));
        let mut out = BinaryMut::new();
        assert_eq!(body.read_data(&mut out), Ok(0));
        assert!(body.is_process_end());
    }
}

#[test]
fn plain_body_hands_on_its_chunks_in_order_however_it_is_read() {
    let mut body = Body::new(BinaryMut::from(b"ab".to_vec()), false);
    let mut out = BinaryMut::new();
    let mut sizes = 0;
    // a chunk before the first read comes behind the bytes the body was made with
    assert_eq!(body.inner_poll_read(Polled::Chunk(false, Binary::from(b"cd".to_vec()))), Ok(true));
    sizes += body.read_data(&mut out).unwrap();
    assert_eq!(bytes_of(&out), b"abcd".to_vec());
    sizes += body.read_data(&mut out).unwrap();
    assert_eq!(body.inner_poll_read(Polled::Chunk(false, Binary::from(b"e".to_vec()))), Ok(true));
    assert_eq!(body.inner_poll_read(Polled::Chunk(false, Binary::from(Vec::new()))), Ok(true));
    assert_eq!(body.inner_poll_read(Polled::Chunk(true, Binary::from(b"fgh".to_vec()))), Ok(true));
    assert!(!body.is_process_end());
    sizes += body.read_data(&mut out).unwrap();
    assert!(body.is_process_end());
    sizes += body.read_data(&mut out).unwrap();
    assert_eq!(bytes_of(&out), b"abcdefgh".to_vec());
    assert_eq!(sizes, 8);
}

#[test]
fn same_coding_in_and_out_hands_on_chunks_as_they_are() {
    let mut body = Body::new(BinaryMut::from(vec![1u8, 2, 3]), false);
    body.set_origin_compress_method(COMPRESS_METHOD_GZIP);
    assert_eq!(body.add_compress_method(COMPRESS_METHOD_GZIP), COMPRESS_METHOD_NONE);
    let mut out = BinaryMut::new();
    assert_eq!(body.read_data(&mut out), Ok(3));
    assert_eq!(body.inner_poll_read(Polled::Chunk(true, Binary::from(vec![4u8, 5]))), Ok(true));
    assert_eq!(body.read_data(&mut out), Ok(2));
    assert_eq!(bytes_of(&out), vec![1u8, 2, 3, 4, 5]);
    assert!(body.is_process_end());
}

#[test]
fn stream_without_its_last_byte_fails_the_body() {
    let input: Vec<u8> = (0..3_000u32).map(|i| (i * 13 % 241) as u8).collect();
    for method in [COMPRESS_METHOD_GZIP, COMPRESS_METHOD_DEFLATE, COMPRESS_METHOD_BROTLI] {
        let whole = packed(method, &input);
        let mut body = Body::new_binary(BinaryMut::from(whole[..whole.len() - 1].to_vec()));
        body.set_origin_compress_method(method);
        let mut out = BinaryMut::new();
        assert_eq!(body.read_data(&mut out), Err(ProtError::Compression), "coding {}", method);
    }
}
