use std::io::{Cursor, Write};

use unxip::error::UnxipError;
use unxip::frame::{
    has_next_chunk, parse_chunk_header, parse_stream_header, read_be_u64, select_codec, ChunkCodec,
    FormatError,
};
use unxip::reader::XipReader;

const RAW: usize = 1 << 24;
const MORE: u64 = 1 << 24;

fn stream_header(flags: u64) -> Vec<u8> {
    let mut v = b"pbzx".to_vec();
    v.extend_from_slice(&flags.to_be_bytes());
    v
}

fn push_chunk(v: &mut Vec<u8>, flags: u64, payload: &[u8]) {
    v.extend_from_slice(&flags.to_be_bytes());
    v.extend_from_slice(&(payload.len() as u64).to_be_bytes());
    v.extend_from_slice(payload);
}

fn compress(data: &[u8]) -> Vec<u8> {
    let mut enc = xz2::write::XzEncoder::new(Vec::new(), 6);
    enc.write_all(data).unwrap();
    enc.finish().unwrap()
}

fn open(bytes: Vec<u8>, length: u64) -> XipReader<Cursor<Vec<u8>>> {
    match XipReader::new(Cursor::new(bytes), length) {
        Ok(d) => d,
        Err(e) => panic!("construction failed: {:?}", e),
    }
}

fn drain(d: &mut XipReader<Cursor<Vec<u8>>>, buf_len: usize) -> Vec<u8> {
    let mut out = Vec::new();
    let mut buf = vec![0u8; buf_len];
    loop {
        match d.read(&mut buf) {
            Ok(0) => return out,
            Ok(n) => out.extend_from_slice(&buf[..n]),
            Err(e) => panic!("read failed: {:?}", e),
        }
    }
}

fn pattern(len: usize, seed: u32) -> Vec<u8> {
    let mut x = seed;
    (0..len)
        .map(|_| {
            x = x.wrapping_mul(1103515245).wrapping_add(12345);
            (x >> 16) as u8
        })
        .collect()
}

/// A stream of compressed chunks only, and the payload it decodes to.
fn lzma_stream() -> (Vec<u8>, Vec<u8>) {
    let parts = [pattern(3000, 1), b"hello, world".to_vec(), pattern(10000, 2)];
    let mut v = stream_header(MORE);
    for (i, p) in parts.iter().enumerate() {
        let flags = if i + 1 < parts.len() { MORE } else { 0 };
        push_chunk(&mut v, flags, &compress(p));
    }
    (v, parts.concat())
}

/// A stream that mixes a raw chunk with compressed ones.
fn mixed_stream() -> (Vec<u8>, Vec<u8>) {
    let raw = pattern(RAW, 3);
    let a = pattern(5000, 4);
    let b = vec![7u8; 70000];
    let mut v = stream_header(MORE);
    push_chunk(&mut v, MORE, &compress(&a));
    push_chunk(&mut v, MORE, &raw);
    push_chunk(&mut v, 0, &compress(&b));
    (v, [a, raw, b].concat())
}

#[test]
fn header_only_stream_yields_nothing() {
    let bytes = stream_header(0);
    let mut d = open(bytes, 12);
    let mut buf = [0u8; 64];
    assert!(matches!(d.read(&mut buf), Ok(0)));
    assert!(d.is_finished());
    assert_eq!(d.bytes_consumed(), 12);
}

#[test]
fn single_raw_chunk_is_returned_unchanged() {
    let raw = pattern(RAW, 9);
    let mut bytes = stream_header(MORE);
    push_chunk(&mut bytes, MORE, &raw);
    let length = (12 + 16 + RAW) as u64;
    let mut d = open(bytes, length);
    assert_eq!(drain(&mut d, 4096), raw);
    assert!(d.is_finished());
    assert_eq!(d.bytes_consumed(), length);
}

#[test]
fn corrupt_lzma_chunk_is_an_error() {
    let mut bytes = stream_header(MORE);
    push_chunk(&mut bytes, 0, &[0xfd, 0x37, 0x7a, 0x58, 0x5a, 0x00, 1, 2, 3, 4, 5]);
    let length = bytes.len() as u64;
    let mut d = open(bytes, length);
    let mut buf = [0u8; 64];
    assert!(matches!(d.read(&mut buf), Err(UnxipError::IoError(_))));
    assert!(d.is_finished());
    assert!(matches!(d.read(&mut buf), Ok(0)));
}

#[test]
fn round_trip_with_small_buffers() {
    let (bytes, payload) = lzma_stream();
    let length = bytes.len() as u64;
    for buf_len in [1usize, 7, 4096, 1 << 20] {
        let mut d = open(bytes.clone(), length);
        assert_eq!(drain(&mut d, buf_len), payload);
        assert!(d.is_finished());
    }
}

#[test]
fn round_trip_mixed_chunks() {
    let (bytes, payload) = mixed_stream();
    let length = bytes.len() as u64;
    for buf_len in [7usize, 4096, RAW + 1] {
        let mut d = open(bytes.clone(), length);
        assert_eq!(drain(&mut d, buf_len), payload);
        assert!(d.is_finished());
        assert_eq!(d.bytes_consumed(), length);
    }
}

#[test]
fn clear_continuation_bit_ends_stream() {
    let mut bytes = stream_header(MORE);
    push_chunk(&mut bytes, 0, &compress(b"first"));
    push_chunk(&mut bytes, 0, &compress(b"second"));
    let length = bytes.len() as u64;
    let mut d = open(bytes, length);
    assert_eq!(drain(&mut d, 64), b"first".to_vec());
    assert!(d.bytes_consumed() < length);
}

#[test]
fn length_bound_ends_stream() {
    let mut bytes = stream_header(MORE);
    let first = compress(b"first");
    push_chunk(&mut bytes, MORE, &first);
    push_chunk(&mut bytes, 0, &compress(b"second"));
    let length = (12 + 16 + first.len()) as u64;
    let mut d = open(bytes, length);
    assert_eq!(drain(&mut d, 64), b"first".to_vec());
    assert_eq!(d.bytes_consumed(), length);
}

#[test]
fn length_reached_by_header_alone() {
    let mut bytes = stream_header(MORE);
    push_chunk(&mut bytes, 0, &compress(b"never"));
    let mut d = open(bytes, 12);
    assert_eq!(drain(&mut d, 64), Vec::<u8>::new());
    assert_eq!(d.bytes_consumed(), 12);
}

#[test]
fn bad_stream_magic_is_rejected() {
    let mut bytes = b"pbzy".to_vec();
    bytes.extend_from_slice(&MORE.to_be_bytes());
    let r = XipReader::new(Cursor::new(bytes), 100);
    assert!(matches!(r, Err(UnxipError::Format(FormatError::BadMagic))));
}

#[test]
fn short_header_is_an_io_error() {
    let r = XipReader::new(Cursor::new(b"pbzx\x00\x00".to_vec()), 100);
    assert!(matches!(r, Err(UnxipError::IoError(_))));
}

#[test]
fn bad_compression_magic_is_rejected() {
    let mut bytes = stream_header(MORE);
    push_chunk(&mut bytes, 0, b"hello");
    let length = bytes.len() as u64;
    let mut d = open(bytes, length);
    let mut buf = [0u8; 16];
    assert!(matches!(
        d.read(&mut buf),
        Err(UnxipError::Format(FormatError::BadCompressionMagic))
    ));
    assert!(d.is_finished());
}

#[test]
fn oversized_chunk_is_rejected() {
    let mut bytes = stream_header(MORE);
    bytes.extend_from_slice(&0u64.to_be_bytes());
    bytes.extend_from_slice(&u64::MAX.to_be_bytes());
    let mut d = open(bytes, 1000);
    let mut buf = [0u8; 16];
    assert!(matches!(
        d.read(&mut buf),
        Err(UnxipError::Format(FormatError::ChunkTooLarge))
    ));
    assert!(d.is_finished());
}

#[test]
fn truncated_chunk_is_an_io_error() {
    let mut bytes = stream_header(MORE);
    bytes.extend_from_slice(&0u64.to_be_bytes());
    bytes.extend_from_slice(&100u64.to_be_bytes());
    bytes.extend_from_slice(&[0xfd, 0x37]);
    let mut d = open(bytes, 1000);
    let mut buf = [0u8; 16];
    assert!(matches!(d.read(&mut buf), Err(UnxipError::IoError(_))));
    assert!(d.is_finished());
}

#[test]
fn end_of_stream_is_permanent() {
    let (bytes, payload) = lzma_stream();
    let length = bytes.len() as u64;
    let mut d = open(bytes, length);
    assert_eq!(drain(&mut d, 512), payload);
    let mut buf = [0u8; 512];
    for _ in 0..5 {
        assert!(matches!(d.read(&mut buf), Ok(0)));
        assert!(d.is_finished());
    }
}

#[test]
fn empty_buffer_reads_nothing_and_keeps_state() {
    let (bytes, payload) = lzma_stream();
    let length = bytes.len() as u64;
    let mut d = open(bytes, length);
    let mut empty: [u8; 0] = [];
    assert!(matches!(d.read(&mut empty), Ok(0)));
    assert!(!d.is_finished());
    assert_eq!(d.bytes_consumed(), 12);
    assert_eq!(d.content_length(), length);
    assert_eq!(drain(&mut d, 100), payload);
}

#[test]
fn big_endian_fields_are_decoded() {
    let b = [0u8, 1, 2, 3, 4, 5, 6, 7, 8, 9, 0xff];
    assert_eq!(read_be_u64(&b, 0), 0x0001_0203_0405_0607);
    assert_eq!(read_be_u64(&b, 3), 0x0304_0506_0708_09ff);
    let mut h = 5u64.to_be_bytes().to_vec();
    h.extend_from_slice(&0x0100_0000u64.to_be_bytes());
    assert_eq!(parse_chunk_header(&h), (5, 0x0100_0000));
    let mut s = b"pbzx".to_vec();
    s.extend_from_slice(&0x0102u64.to_be_bytes());
    assert_eq!(parse_stream_header(&s), Ok(0x0102));
    s[0] = b'P';
    assert_eq!(parse_stream_header(&s), Err(FormatError::BadMagic));
}

#[test]
fn continuation_rule_needs_bit_and_room() {
    assert!(has_next_chunk(12, 100, MORE));
    assert!(has_next_chunk(12, 100, MORE | 0xff));
    assert!(!has_next_chunk(12, 100, MORE - 1));
    assert!(!has_next_chunk(100, 100, MORE));
    assert!(!has_next_chunk(101, 100, u64::MAX));
}

#[test]
fn codec_follows_size_and_signature() {
    let lzma = [0xfdu8, 0x37, 0x7a, 0x58, 0x5a, 0x00, 9];
    assert_eq!(select_codec(1 << 24, b"anything"), Ok(ChunkCodec::Raw));
    assert_eq!(select_codec(1 << 24, &lzma), Ok(ChunkCodec::Raw));
    assert_eq!(select_codec(7, &lzma), Ok(ChunkCodec::Lzma));
    assert_eq!(select_codec(7, &lzma[..5]), Err(FormatError::BadCompressionMagic));
    assert_eq!(select_codec(0, &[]), Err(FormatError::BadCompressionMagic));
}

#[test]
fn bad_magic_on_short_source_is_a_format_error() {
    let r = XipReader::new(Cursor::new(b"pbzy\x00\x00".to_vec()), 100);
    assert!(matches!(r, Err(UnxipError::Format(FormatError::BadMagic))));
}

#[test]
fn magic_is_recognised() {
    assert!(unxip::frame::is_pbzx_magic(b"pbzx"));
    assert!(unxip::frame::is_pbzx_magic(b"pbzx and more"));
    assert!(!unxip::frame::is_pbzx_magic(b"pbz"));
    assert!(!unxip::frame::is_pbzx_magic(b"xzbp"));
}
