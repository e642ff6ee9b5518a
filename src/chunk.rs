//! The reader of one chunk's content: raw bytes handed out as they stand,
//! or an XZ stream decompressed as it is pulled.

use vstd::prelude::*;

use std::io::{Cursor, Read};
use xz2::read::XzDecoder;

use crate::error::UnxipError;
use crate::frame::{
    be_u64_at, chunk_header_bytes, codec_spec, lemma_chunk_header_round_trip, select_codec,
    ChunkCodec, FormatError, RAW_CHUNK_SIZE,
};

verus! {

/// What `xz2::read::XzDecoder` makes of the bytes `p`: the bytes that it
/// hands out, in order, before it stops, and whether it stops because the
/// XZ stream at the start of `p` ended properly.
pub uninterp spec fn xz_decode(p: Seq<u8>) -> (Seq<u8>, bool);

/// Holds an `xz2::read::XzDecoder`, a type that Verus does not accept as
/// declared because of the `Read` bound on its parameter.
#[verifier::external_body]
struct XzHandle {
    decoder: XzDecoder<Cursor<Vec<u8>>>,
}

/// Relies on `xz2::read::XzDecoder::new`: a decoder over the given bytes.
#[verifier::external_body]
fn open_xz(payload: Vec<u8>) -> (d: XzHandle) {
    XzHandle { decoder: XzDecoder::new(Cursor::new(payload)) }
}

/// An XZ stream over one chunk's payload, decompressed as it is pulled.
pub struct LzmaStream {
    handle: XzHandle,
    input: Ghost<Seq<u8>>,
    produced: Ghost<nat>,
}

impl LzmaStream {
    /// The payload that the stream decodes.
    pub closed spec fn input(&self) -> Seq<u8> {
        self.input@
    }

    /// How many decoded bytes have been handed out so far.
    pub closed spec fn produced(&self) -> nat {
        self.produced@
    }

    fn new(payload: Vec<u8>) -> (s: LzmaStream)
        ensures
            s.input() == payload@,
            s.produced() == 0,
    {
        let ghost g = payload@;
        LzmaStream { handle: open_xz(payload), input: Ghost(g), produced: Ghost(0) }
    }

    /// Relies on `Read::read` of `xz2::read::XzDecoder`: at most
    /// `buf.len()` bytes are written, the buffer keeps its length, the
    /// bytes written are the next ones of the decoded output, and `Ok(0)`
    /// on a non-empty buffer comes only once the stream has ended properly.
    #[verifier::external_body]
    fn read(&mut self, buf: &mut [u8]) -> (r: Result<usize, std::io::Error>)
        ensures
            final(buf)@.len() == old(buf)@.len(),
            final(self).input() == old(self).input(),
            r matches Ok(n) ==> {
                let out = xz_decode(old(self).input()).0;
                &&& n <= old(buf)@.len()
                &&& final(self).produced() == old(self).produced() + n
                &&& final(self).produced() <= out.len()
                &&& final(buf)@.subrange(0, n as int) == out.subrange(
                    old(self).produced() as int,
                    final(self).produced() as int,
                )
            },
            r matches Ok(n) && n == 0 && old(buf)@.len() > 0 ==> old(self).produced()
                == xz_decode(old(self).input()).0.len() && xz_decode(old(self).input()).1,
    {
        self.handle.decoder.read(buf)
    }
}

/// What successive reads into a buffer of `k` bytes hand out from a raw
/// chunk whose remaining bytes are `p`, one read after another, until a
/// read hands out nothing: each read takes the next `min(k, rest)` bytes.
pub open spec fn raw_reads(p: Seq<u8>, k: nat) -> Seq<u8>
    decreases p.len(),
{
    if p.len() == 0 || k == 0 {
        Seq::empty()
    } else {
        let n = if p.len() < k { p.len() } else { k };
        p.subrange(0, n as int) + raw_reads(p.subrange(n as int, p.len() as int), k)
    }
}

/// Draining a raw chunk with any non-empty buffer gives back its bytes.
pub proof fn lemma_raw_reads_round_trip(p: Seq<u8>, k: nat)
    requires
        k > 0,
    ensures
        raw_reads(p, k) == p,
    decreases p.len(),
{
    if p.len() > 0 {
        let n = if p.len() < k { p.len() } else { k };
        lemma_raw_reads_round_trip(p.subrange(n as int, p.len() as int), k);
        assert(p.subrange(0, n as int) + p.subrange(n as int, p.len() as int) =~= p);
    }
}

/// A chunk framed with a header that declares the raw size, followed by
/// that many bytes, is read as a raw chunk whose content is its payload,
/// whatever the buffer size of the reads that drain it.
pub proof fn lemma_raw_chunk_round_trip(flags: u64, payload: Seq<u8>, k: nat)
    requires
        payload.len() == RAW_CHUNK_SIZE,
        k > 0,
    ensures
        ({
            let h = chunk_header_bytes(flags, RAW_CHUNK_SIZE);
            &&& be_u64_at(h, 0) == flags as int
            &&& codec_spec(be_u64_at(h, 8) as u64, payload) == Ok::<ChunkCodec, FormatError>(ChunkCodec::Raw)
            &&& raw_reads(payload, k) == payload
        }),
{
    lemma_chunk_header_round_trip(flags, RAW_CHUNK_SIZE);
    lemma_raw_reads_round_trip(payload, k);
}

/// Copies `src[start..start + n]` into the first `n` bytes of `buf`.
fn copy_into(src: &[u8], start: usize, buf: &mut [u8], n: usize)
    requires
        start + n <= src@.len(),
        n <= old(buf)@.len(),
    ensures
        final(buf)@.len() == old(buf)@.len(),
        forall|j: int| 0 <= j < n ==> final(buf)@[j] == src@[start + j],
        forall|j: int| n <= j < old(buf)@.len() ==> final(buf)@[j] == old(buf)@[j],
{
    let ghost b0 = buf@;
    let len: usize = src.len();
    let mut i: usize = 0;
    while i < n
        invariant
            start + n <= src@.len(),
            src@.len() == len,
            n <= buf@.len(),
            buf@.len() == b0.len(),
            i <= n,
            forall|j: int| 0 <= j < i ==> buf@[j] == src@[start + j],
            forall|j: int| i <= j < b0.len() ==> buf@[j] == b0[j],
        decreases n - i,
    {
        buf[i] = src[start + i];
        i = i + 1;
    }
}

/// The reader of the chunk that is being drained.
pub enum ChunkReader {
    /// An uncompressed chunk, of which `data[pos..]` is still to come.
    Raw { data: Vec<u8>, pos: usize },
    /// A compressed chunk.
    Lzma { decoder: LzmaStream },
}

impl ChunkReader {
    /// The chunk's decoded content.
    pub open spec fn output(&self) -> Seq<u8> {
        match self {
            ChunkReader::Raw { data, .. } => data@,
            ChunkReader::Lzma { decoder } => xz_decode(decoder.input()).0,
        }
    }

    /// How much of the decoded content has been handed out.
    pub open spec fn position(&self) -> nat {
        match self {
            ChunkReader::Raw { pos, .. } => *pos as nat,
            ChunkReader::Lzma { decoder } => decoder.produced(),
        }
    }

    /// Holds where the reader is well formed.
    pub open spec fn wf(&self) -> bool {
        self.position() <= self.output().len()
    }

    /// The decoded bytes that are still to come.
    pub open spec fn pending(&self) -> Seq<u8> {
        self.output().subrange(self.position() as int, self.output().len() as int)
    }

    /// Opens the reader for a chunk of declared size `size` whose payload is
    /// `payload`: a raw reader over the payload for a chunk of the raw size,
    /// an XZ decoder over it for a chunk that opens with the XZ signature.
    pub fn open(size: u64, payload: Vec<u8>) -> (r: Result<ChunkReader, UnxipError>)
        ensures
            match codec_spec(size, payload@) {
                Ok(ChunkCodec::Raw) => r matches Ok(c) && c is Raw && c.wf()
                    && c.output() == payload@ && c.position() == 0,
                Ok(ChunkCodec::Lzma) => r matches Ok(c) && c is Lzma && c.wf()
                    && c.output() == xz_decode(payload@).0 && c.position() == 0,
                Err(e) => r matches Err(UnxipError::Format(f)) && f == e,
            },
    {
        match select_codec(size, payload.as_slice()) {
            Ok(ChunkCodec::Raw) => {
                Ok(ChunkReader::Raw { data: payload, pos: 0 })
            },
            Ok(ChunkCodec::Lzma) => {
                let ghost p = payload@;
                let decoder = LzmaStream::new(payload);
                assert(decoder.input() == p);
                Ok(ChunkReader::Lzma { decoder })
            },
            Err(e) => Err(UnxipError::Format(e)),
        }
    }

    /// Pulls the next bytes of the chunk's decoded content into `buf`. A
    /// raw chunk hands out as many of its remaining bytes as fit; `Ok(0)` on
    /// a non-empty buffer means that the chunk is drained.
    pub fn read(&mut self, buf: &mut [u8]) -> (r: Result<usize, UnxipError>)
        requires
            old(self).wf(),
        ensures
            r is Ok ==> final(self).wf(),
            final(buf)@.len() == old(buf)@.len(),
            r matches Ok(n) ==> n <= old(buf)@.len(),
            (*old(self)) is Raw ==> (*final(self)) is Raw,
            (*old(self)) is Lzma ==> (*final(self)) is Lzma,
            final(self).output() == old(self).output(),
            r matches Ok(n) ==> final(self).position() == old(self).position() + n
                && final(buf)@.subrange(0, n as int) == old(self).output().subrange(
                old(self).position() as int,
                final(self).position() as int,
            ),
            r matches Ok(n) && n == 0 && old(buf)@.len() > 0 ==> old(self).position()
                == old(self).output().len(),
            (*old(self)) is Raw ==> ({
                let p = old(self).pending();
                let n = if p.len() < old(buf)@.len() { p.len() } else { old(buf)@.len() };
                &&& r == Ok::<usize, UnxipError>(n as usize)
                &&& final(buf)@.subrange(0, n as int) == p.subrange(0, n as int)
                &&& final(buf)@.subrange(n as int, old(buf)@.len() as int)
                    == old(buf)@.subrange(n as int, old(buf)@.len() as int)
                &&& final(self).pending() == p.subrange(n as int, p.len() as int)
            }),
    {
        match self {
            ChunkReader::Raw { data, pos } => {
                let ghost p = data@.subrange(*pos as int, data@.len() as int);
                let ghost b0 = buf@;
                let start: usize = *pos;
                let left = data.len() - start;
                let n: usize = if left < buf.len() { left } else { buf.len() };
                copy_into(data.as_slice(), start, buf, n);
                *pos = start + n;
                assert(buf@.subrange(0, n as int) =~= p.subrange(0, n as int));
                assert(buf@.subrange(n as int, b0.len() as int) =~= b0.subrange(n as int, b0.len() as int));
                assert(data@.subrange(*pos as int, data@.len() as int) =~= p.subrange(n as int, p.len() as int));
                Ok(n)
            },
            ChunkReader::Lzma { decoder } => match decoder.read(buf) {
                Ok(n) => Ok(n),
                Err(e) => Err(UnxipError::IoError(e)),
            },
        }
    }
}

} // verus!
