//! The PBZX wire format: stream header, chunk headers, the continuation
//! rule and the choice of codec for a chunk.

use vstd::prelude::*;

verus! {

/// Flag bit that announces a further chunk after the current one.
pub const CONTINUATION_BIT: u64 = 0x0100_0000;

/// A chunk of exactly this many payload bytes is stored uncompressed.
pub const RAW_CHUNK_SIZE: u64 = 0x0100_0000;

/// Length of the stream header: four magic bytes and eight flag bytes.
pub const STREAM_HEADER_LEN: u64 = 12;

/// Length of a chunk header: eight flag bytes and eight size bytes.
pub const CHUNK_HEADER_LEN: u64 = 16;

/// The four bytes `pbzx` that open every stream.
pub open spec fn pbzx_magic() -> Seq<u8> {
    seq![0x70u8, 0x62u8, 0x7au8, 0x78u8]
}

/// The six-byte signature that opens an XZ (LZMA) stream.
pub open spec fn lzma_magic() -> Seq<u8> {
    seq![0xfdu8, 0x37u8, 0x7au8, 0x58u8, 0x5au8, 0x00u8]
}

/// Big-endian value of the eight bytes of `s` that start at `o`.
pub open spec fn be_u64_at(s: Seq<u8>, o: int) -> int {
    s[o] as int * 0x0100_0000_0000_0000 + s[o + 1] as int * 0x0001_0000_0000_0000
        + s[o + 2] as int * 0x0000_0100_0000_0000 + s[o + 3] as int * 0x0000_0001_0000_0000
        + s[o + 4] as int * 0x0000_0000_0100_0000 + s[o + 5] as int * 0x0000_0000_0001_0000
        + s[o + 6] as int * 0x0000_0000_0000_0100 + s[o + 7] as int
}

/// True when `s` begins with the bytes of `prefix`.
pub open spec fn starts_with(s: Seq<u8>, prefix: Seq<u8>) -> bool {
    prefix.len() <= s.len() && s.subrange(0, prefix.len() as int) == prefix
}

/// The continuation rule: a further chunk is read only while fewer bytes
/// than the payload's length have been consumed and the current flags
/// carry the continuation bit.
pub open spec fn continues(consumed: u64, length: u64, flags: u64) -> bool {
    consumed < length && flags & CONTINUATION_BIT != 0
}

/// Errors in the framing of a PBZX stream.
#[derive(Debug, Clone, Copy, PartialEq, Eq, Structural)]
pub enum FormatError {
    /// The stream does not begin with `pbzx`.
    BadMagic,
    /// A compressed chunk does not begin with the XZ signature.
    BadCompressionMagic,
    /// A chunk declares more payload bytes than can be held or counted.
    ChunkTooLarge,
}

/// How the payload of one chunk is to be decoded.
#[derive(Debug, Clone, Copy, PartialEq, Eq, Structural)]
pub enum ChunkCodec {
    /// The payload is the chunk's content as it stands.
    Raw,
    /// The payload is an XZ stream.
    Lzma,
}

/// The codec that a chunk of declared size `size` with payload `payload`
/// calls for, or the framing error that it carries.
pub open spec fn codec_spec(size: u64, payload: Seq<u8>) -> Result<ChunkCodec, FormatError> {
    if size == RAW_CHUNK_SIZE {
        Ok(ChunkCodec::Raw)
    } else if starts_with(payload, lzma_magic()) {
        Ok(ChunkCodec::Lzma)
    } else {
        Err(FormatError::BadCompressionMagic)
    }
}

/// The eight big-endian bytes of `x`.
pub open spec fn be_bytes(x: u64) -> Seq<u8> {
    seq![
        (x as int / 0x0100_0000_0000_0000 % 256) as u8,
        (x as int / 0x0001_0000_0000_0000 % 256) as u8,
        (x as int / 0x0000_0100_0000_0000 % 256) as u8,
        (x as int / 0x0000_0001_0000_0000 % 256) as u8,
        (x as int / 0x0000_0000_0100_0000 % 256) as u8,
        (x as int / 0x0000_0000_0001_0000 % 256) as u8,
        (x as int / 0x0000_0000_0000_0100 % 256) as u8,
        (x as int % 256) as u8,
    ]
}

/// A stream header with initial flags `flags`.
pub open spec fn stream_header_bytes(flags: u64) -> Seq<u8> {
    pbzx_magic() + be_bytes(flags)
}

/// A chunk header announcing `size` payload bytes under flags `flags`.
pub open spec fn chunk_header_bytes(flags: u64, size: u64) -> Seq<u8> {
    be_bytes(flags) + be_bytes(size)
}

/// Reading the eight big-endian bytes of `x` gives back `x`.
pub proof fn lemma_be_bytes_round_trip(x: u64)
    ensures
        be_bytes(x).len() == 8,
        be_u64_at(be_bytes(x), 0) == x as int,
{
    let v = x as int;
    let q1 = v / 0x100;
    let q2 = v / 0x1_0000;
    let q3 = v / 0x100_0000;
    let q4 = v / 0x1_0000_0000;
    let q5 = v / 0x100_0000_0000;
    let q6 = v / 0x1_0000_0000_0000;
    let q7 = v / 0x100_0000_0000_0000;
    assert(v == q1 * 256 + v % 256);
    assert(q1 == q2 * 256 + q1 % 256);
    assert(q2 == q3 * 256 + q2 % 256);
    assert(q3 == q4 * 256 + q3 % 256);
    assert(q4 == q5 * 256 + q4 % 256);
    assert(q5 == q6 * 256 + q5 % 256);
    assert(q6 == q7 * 256 + q6 % 256);
    assert(q7 < 256);
}

/// A stream header built from `flags` passes the magic check and gives
/// back `flags`.
pub proof fn lemma_stream_header_round_trip(flags: u64)
    ensures
        stream_header_bytes(flags).len() == STREAM_HEADER_LEN,
        starts_with(stream_header_bytes(flags), pbzx_magic()),
        be_u64_at(stream_header_bytes(flags), 4) == flags as int,
{
    lemma_be_bytes_round_trip(flags);
    let h = stream_header_bytes(flags);
    assert(h.subrange(0, 4) =~= pbzx_magic());
    assert forall|i: int| 0 <= i < 8 implies h[4 + i] == be_bytes(flags)[i] by {}
}

/// A chunk header built from `flags` and `size` gives both back.
pub proof fn lemma_chunk_header_round_trip(flags: u64, size: u64)
    ensures
        chunk_header_bytes(flags, size).len() == CHUNK_HEADER_LEN,
        be_u64_at(chunk_header_bytes(flags, size), 0) == flags as int,
        be_u64_at(chunk_header_bytes(flags, size), 8) == size as int,
{
    lemma_be_bytes_round_trip(flags);
    lemma_be_bytes_round_trip(size);
    let h = chunk_header_bytes(flags, size);
    assert forall|i: int| 0 <= i < 8 implies h[i] == be_bytes(flags)[i] && h[8 + i]
        == be_bytes(size)[i] by {}
}

/// Reads the big-endian integer held in `b[o..o + 8]`.
pub fn read_be_u64(b: &[u8], o: usize) -> (r: u64)
    requires
        o + 8 <= b@.len(),
    ensures
        r as int == be_u64_at(b@, o as int),
{
    (b[o] as u64) * 0x0100_0000_0000_0000 + (b[o + 1] as u64) * 0x0001_0000_0000_0000
        + (b[o + 2] as u64) * 0x0000_0100_0000_0000 + (b[o + 3] as u64) * 0x0000_0001_0000_0000
        + (b[o + 4] as u64) * 0x0000_0000_0100_0000 + (b[o + 5] as u64) * 0x0000_0000_0001_0000
        + (b[o + 6] as u64) * 0x0000_0000_0000_0100 + (b[o + 7] as u64)
}

/// Decides whether `s` begins with `prefix`.
fn has_prefix(s: &[u8], prefix: &[u8]) -> (r: bool)
    ensures
        r == starts_with(s@, prefix@),
{
    if prefix.len() > s.len() {
        return false;
    }
    let mut i: usize = 0;
    while i < prefix.len()
        invariant
            prefix@.len() <= s@.len(),
            i <= prefix@.len(),
            forall|j: int| 0 <= j < i ==> s@[j] == prefix@[j],
        decreases prefix@.len() - i,
    {
        if s[i] != prefix[i] {
            assert(s@.subrange(0, prefix@.len() as int)[i as int] != prefix@[i as int]);
            return false;
        }
        i = i + 1;
    }
    assert(s@.subrange(0, prefix@.len() as int) =~= prefix@);
    true
}

/// Decides whether `b` begins with the stream magic `pbzx`.
pub fn is_pbzx_magic(b: &[u8]) -> (r: bool)
    ensures
        r == starts_with(b@, pbzx_magic()),
{
    let magic: [u8; 4] = [0x70, 0x62, 0x7a, 0x78];
    assert(magic@ =~= pbzx_magic());
    has_prefix(b, &magic)
}

/// Checks the 12-byte stream header and returns its initial flags.
pub fn parse_stream_header(h: &[u8]) -> (r: Result<u64, FormatError>)
    requires
        h@.len() >= STREAM_HEADER_LEN,
    ensures
        r == (if starts_with(h@, pbzx_magic()) {
            Ok::<u64, FormatError>(be_u64_at(h@, 4) as u64)
        } else {
            Err(FormatError::BadMagic)
        }),
{
    let magic: [u8; 4] = [0x70, 0x62, 0x7a, 0x78];
    assert(magic@ =~= pbzx_magic());
    if has_prefix(h, &magic) {
        Ok(read_be_u64(h, 4))
    } else {
        Err(FormatError::BadMagic)
    }
}

/// Splits a 16-byte chunk header into its flags and its declared size.
pub fn parse_chunk_header(h: &[u8]) -> (r: (u64, u64))
    requires
        h@.len() >= CHUNK_HEADER_LEN,
    ensures
        r.0 as int == be_u64_at(h@, 0),
        r.1 as int == be_u64_at(h@, 8),
{
    (read_be_u64(h, 0), read_be_u64(h, 8))
}

/// Applies the continuation rule.
pub fn has_next_chunk(consumed: u64, length: u64, flags: u64) -> (r: bool)
    ensures
        r == continues(consumed, length, flags),
{
    consumed < length && flags & CONTINUATION_BIT != 0
}

/// Selects the codec of a chunk from its declared size and its payload.
pub fn select_codec(size: u64, payload: &[u8]) -> (r: Result<ChunkCodec, FormatError>)
    ensures
        r == codec_spec(size, payload@),
{
    if size == RAW_CHUNK_SIZE {
        return Ok(ChunkCodec::Raw);
    }
    let magic: [u8; 6] = [0xfd, 0x37, 0x7a, 0x58, 0x5a, 0x00];
    assert(magic@ =~= lzma_magic());
    if has_prefix(payload, &magic) {
        Ok(ChunkCodec::Lzma)
    } else {
        Err(FormatError::BadCompressionMagic)
    }
}

} // verus!
