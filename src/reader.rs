//! The PBZX stream decoder: it owns the source, reads chunk headers as
//! the stream is pulled, and hands out the decoded bytes in order.

use vstd::prelude::*;

use std::io::Read;

use crate::chunk::{xz_decode, ChunkReader};
use crate::error::UnxipError;
use crate::frame::{
    be_u64_at, codec_spec, continues, has_next_chunk, parse_chunk_header, parse_stream_header,
    is_pbzx_magic, pbzx_magic, read_be_u64, starts_with, ChunkCodec, FormatError, CHUNK_HEADER_LEN, STREAM_HEADER_LEN,
};

verus! {

/// Relies on `Read::read_exact`: on success the returned buffer holds
/// exactly `n` bytes. A buffer of more than `isize::MAX` bytes cannot be
/// allocated, so `n` stays within that.
#[verifier::external_body]
fn read_exact_vec<R: Read>(r: &mut R, n: usize) -> (res: Result<Vec<u8>, std::io::Error>)
    requires
        n <= isize::MAX,
    ensures
        res matches Ok(v) ==> v@.len() == n,
{
    let mut b = vec![0u8; n];
    match r.read_exact(&mut b) {
        Ok(()) => Ok(b),
        Err(e) => Err(e),
    }
}

/// Bytes still to be consumed before the declared length is reached.
pub open spec fn remaining(consumed: u64, length: u64) -> int {
    if consumed < length {
        length - consumed
    } else {
        0
    }
}

/// A streaming decoder of a PBZX payload read from `R`.
pub struct XipReader<R> {
    r: R,
    content_length: u64,
    content_read_size: u64,
    chunk_decoder: Option<ChunkReader>,
    done: bool,
    flags: u64,
}

impl<R> XipReader<R> {
    /// The payload's declared length in bytes.
    pub closed spec fn length(&self) -> u64 {
        self.content_length
    }

    /// The bytes consumed from the source so far: headers and payloads.
    pub closed spec fn consumed(&self) -> u64 {
        self.content_read_size
    }

    /// The flags of the stream header, or of the last chunk read.
    pub closed spec fn flags(&self) -> u64 {
        self.flags
    }

    /// Holds once the stream has ended; no further bytes come.
    pub closed spec fn finished(&self) -> bool {
        self.done
    }

    /// Holds while a chunk is being drained.
    pub closed spec fn chunk_active(&self) -> bool {
        self.chunk_decoder is Some
    }

    /// The decoded content of the chunk being drained (empty when none is).
    pub closed spec fn chunk_output(&self) -> Seq<u8> {
        match self.chunk_decoder {
            Some(c) => c.output(),
            None => Seq::empty(),
        }
    }

    /// How much of that content has been handed out.
    pub closed spec fn chunk_position(&self) -> nat {
        match self.chunk_decoder {
            Some(c) => c.position(),
            None => 0,
        }
    }

    /// The bytes still to come from the raw chunk being drained, if the
    /// chunk being drained is raw.
    pub closed spec fn raw_pending(&self) -> Option<Seq<u8>> {
        match self.chunk_decoder {
            Some(c) => if c is Raw {
                Some(c.pending())
            } else {
                None
            },
            None => None,
        }
    }

    /// Holds between chunks, and when the chunk being drained has nothing
    /// left to give.
    pub closed spec fn at_chunk_boundary(&self) -> bool {
        match self.chunk_decoder {
            Some(c) => c.position() == c.output().len(),
            None => true,
        }
    }

    /// The decoder's invariant.
    pub closed spec fn wf(&self) -> bool {
        &&& self.content_read_size >= STREAM_HEADER_LEN
        &&& self.chunk_decoder matches Some(c) ==> c.wf()
        &&& self.done ==> self.chunk_decoder is None
    }

    /// The payload's declared length in bytes.
    pub fn content_length(&self) -> (r: u64)
        ensures
            r == self.length(),
    {
        self.content_length
    }

    /// The bytes consumed from the source so far.
    pub fn bytes_consumed(&self) -> (r: u64)
        ensures
            r == self.consumed(),
    {
        self.content_read_size
    }

    /// Whether the stream has ended.
    pub fn is_finished(&self) -> (r: bool)
        ensures
            r == self.finished(),
    {
        self.done
    }

    /// Builds a decoder over `r` from the 12 header bytes already read from
    /// it; `content_length` is the payload's declared length. Fails with
    /// `BadMagic` where the header does not begin with `pbzx`.
    pub fn from_header(r: R, header: &[u8], content_length: u64) -> (res: Result<Self, UnxipError>)
        requires
            header@.len() == STREAM_HEADER_LEN,
        ensures
            starts_with(header@, pbzx_magic()) <==> res is Ok,
            res matches Ok(d) ==> {
                &&& d.wf()
                &&& d.length() == content_length
                &&& d.consumed() == STREAM_HEADER_LEN
                &&& d.flags() as int == be_u64_at(header@, 4)
                &&& !d.finished()
                &&& !d.chunk_active()
                &&& d.at_chunk_boundary()
                &&& d.raw_pending() is None
            },
            res is Err ==> res matches Err(UnxipError::Format(FormatError::BadMagic)),
    {
        match parse_stream_header(header) {
            Ok(flags) => Ok(XipReader {
                r,
                content_length,
                content_read_size: STREAM_HEADER_LEN,
                chunk_decoder: None,
                done: false,
                flags,
            }),
            Err(e) => Err(UnxipError::Format(e)),
        }
    }

    /// Takes in a chunk header: its flags become the current flags, and the
    /// 16 header bytes count as consumed. Returns the declared payload size,
    /// or `ChunkTooLarge` where that many bytes could not be held or counted.
    fn begin_chunk(&mut self, header: &[u8]) -> (res: Result<usize, UnxipError>)
        requires
            old(self).wf(),
            !old(self).done,
            old(self).chunk_decoder is None,
            continues(old(self).content_read_size, old(self).content_length, old(self).flags),
            header@.len() == CHUNK_HEADER_LEN,
        ensures
            final(self).wf(),
            !final(self).done,
            final(self).chunk_decoder is None,
            final(self).content_length == old(self).content_length,
            final(self).content_read_size >= old(self).content_read_size,
            old(self).content_read_size + CHUNK_HEADER_LEN <= u64::MAX ==> {
                &&& final(self).content_read_size == old(self).content_read_size + CHUNK_HEADER_LEN
                &&& final(self).flags as int == be_u64_at(header@, 0)
            },
            res is Err <==> old(self).content_read_size > u64::MAX - CHUNK_HEADER_LEN
                || be_u64_at(header@, 8) > u64::MAX - (old(self).content_read_size + CHUNK_HEADER_LEN)
                || be_u64_at(header@, 8) > isize::MAX,
            res matches Ok(n) ==> n as int == be_u64_at(header@, 8) && n <= isize::MAX
                && final(self).content_read_size + n <= u64::MAX,
            res is Err ==> res matches Err(UnxipError::Format(FormatError::ChunkTooLarge)),
    {
        let (flags, size) = parse_chunk_header(header);
        if self.content_read_size > u64::MAX - CHUNK_HEADER_LEN {
            return Err(UnxipError::Format(FormatError::ChunkTooLarge));
        }
        self.content_read_size = self.content_read_size + CHUNK_HEADER_LEN;
        self.flags = flags;
        if size > u64::MAX - self.content_read_size || size > isize::MAX as u64 {
            return Err(UnxipError::Format(FormatError::ChunkTooLarge));
        }
        Ok(size as usize)
    }

    /// Takes in a chunk's payload: its bytes count as consumed, and the
    /// chunk's reader becomes the active one.
    fn finish_chunk(&mut self, size: usize, payload: Vec<u8>) -> (res: Result<(), UnxipError>)
        requires
            old(self).wf(),
            !old(self).done,
            old(self).chunk_decoder is None,
            payload@.len() == size,
            old(self).content_read_size + size <= u64::MAX,
        ensures
            final(self).wf(),
            !final(self).done,
            final(self).content_length == old(self).content_length,
            final(self).flags == old(self).flags,
            final(self).content_read_size == old(self).content_read_size + size,
            res is Ok ==> final(self).chunk_active() && final(self).chunk_position() == 0,
            match codec_spec(size as u64, payload@) {
                Ok(ChunkCodec::Raw) => res is Ok && final(self).raw_pending() == Some(payload@)
                    && final(self).chunk_output() == payload@,
                Ok(ChunkCodec::Lzma) => res is Ok && final(self).raw_pending() is None
                    && final(self).chunk_output() == xz_decode(payload@).0,
                Err(e) => res matches Err(UnxipError::Format(f)) && f == e
                    && !final(self).chunk_active(),
            },
    {
        self.content_read_size = self.content_read_size + size as u64;
        match ChunkReader::open(size as u64, payload) {
            Ok(c) => {
                self.chunk_decoder = Some(c);
                Ok(())
            },
            Err(e) => Err(e),
        }
    }
}

impl<R: Read> XipReader<R> {
    /// Builds a decoder over `r`, which stands at the start of a PBZX
    /// payload of `content_length` bytes. Reads the four magic bytes and
    /// fails with `BadMagic` where they are not `pbzx`, then reads the eight
    /// flag bytes; fails with the source's error where it runs short.
    pub fn new(mut r: R, content_length: u64) -> (res: Result<Self, UnxipError>)
        ensures
            res matches Ok(d) ==> {
                &&& d.wf()
                &&& d.length() == content_length
                &&& d.consumed() == STREAM_HEADER_LEN
                &&& !d.finished()
                &&& !d.chunk_active()
                &&& d.at_chunk_boundary()
                &&& d.raw_pending() is None
            },
            res is Err ==> res matches Err(UnxipError::IoError(_))
                || res matches Err(UnxipError::Format(FormatError::BadMagic)),
    {
        let magic = match read_exact_vec(&mut r, 4) {
            Ok(m) => m,
            Err(e) => return Err(UnxipError::IoError(e)),
        };
        if !is_pbzx_magic(magic.as_slice()) {
            return Err(UnxipError::Format(FormatError::BadMagic));
        }
        let flags = match read_exact_vec(&mut r, 8) {
            Ok(f) => f,
            Err(e) => return Err(UnxipError::IoError(e)),
        };
        Ok(XipReader {
            r,
            content_length,
            content_read_size: STREAM_HEADER_LEN,
            chunk_decoder: None,
            done: false,
            flags: read_be_u64(flags.as_slice(), 0),
        })
    }

    /// At a chunk boundary: ends the stream where the continuation rule
    /// says so, else reads the next chunk's header and payload and opens
    /// its reader.
    fn load_next_chunk(&mut self) -> (res: Result<(), UnxipError>)
        requires
            old(self).wf(),
            !old(self).done,
            old(self).chunk_decoder is None,
        ensures
            final(self).wf(),
            final(self).content_length == old(self).content_length,
            final(self).content_read_size >= old(self).content_read_size,
            !continues(old(self).content_read_size, old(self).content_length, old(self).flags)
                ==> res is Ok && final(self).done
                && final(self).content_read_size == old(self).content_read_size
                && final(self).flags == old(self).flags && final(self).chunk_decoder is None,
            res is Ok && !final(self).done ==> final(self).chunk_decoder is Some
                && final(self).chunk_position() == 0,
            continues(old(self).content_read_size, old(self).content_length, old(self).flags)
                ==> !final(self).done && (res is Ok <==> final(self).chunk_active()),
            continues(old(self).content_read_size, old(self).content_length, old(self).flags)
                && res is Ok ==> final(self).content_read_size >= old(self).content_read_size
                + CHUNK_HEADER_LEN,
    {
        if !has_next_chunk(self.content_read_size, self.content_length, self.flags) {
            self.done = true;
            return Ok(());
        }
        let header = match read_exact_vec(&mut self.r, CHUNK_HEADER_LEN as usize) {
            Ok(h) => h,
            Err(e) => return Err(UnxipError::IoError(e)),
        };
        let size = match self.begin_chunk(header.as_slice()) {
            Ok(n) => n,
            Err(e) => return Err(e),
        };
        let payload = match read_exact_vec(&mut self.r, size) {
            Ok(p) => p,
            Err(e) => return Err(UnxipError::IoError(e)),
        };
        self.finish_chunk(size, payload)
    }

    /// Pulls decoded bytes into `buf` and returns how many were written.
    /// `Ok(0)` on a non-empty buffer means the end of the stream, for this
    /// call and every later one. A failure to read the source, a malformed
    /// chunk or corrupt compressed data ends the stream and is returned.
    pub fn read(&mut self, buf: &mut [u8]) -> (res: Result<usize, UnxipError>)
        requires
            old(self).wf(),
        ensures
            final(self).wf(),
            final(buf)@.len() == old(buf)@.len(),
            final(self).length() == old(self).length(),
            final(self).consumed() >= old(self).consumed(),
            old(self).finished() ==> final(self).finished(),
            old(self).finished() || old(buf)@.len() == 0 ==> res == Ok::<usize, UnxipError>(0)
                && *final(self) == *old(self) && final(buf)@ == old(buf)@,
            res matches Ok(n) ==> n <= old(buf)@.len(),
            res matches Ok(n) && n > 0 ==> !final(self).finished(),
            old(buf)@.len() > 0 && res == Ok::<usize, UnxipError>(0) ==> final(self).finished(),
            res is Err ==> final(self).finished(),
            res is Ok && res->Ok_0 > 0 ==> {
                let n = res->Ok_0;
                let pos = final(self).chunk_position();
                &&& final(self).chunk_active()
                &&& n <= pos
                &&& final(buf)@.subrange(0, n as int) == final(self).chunk_output().subrange(
                    pos - n,
                    pos as int,
                )
                &&& if old(self).at_chunk_boundary() {
                    pos == n
                } else {
                    &&& final(self).chunk_output() == old(self).chunk_output()
                    &&& pos == old(self).chunk_position() + n
                    &&& final(self).consumed() == old(self).consumed()
                }
            },
            !old(self).finished() && old(buf)@.len() > 0 && res == Ok::<usize, UnxipError>(0)
                ==> old(self).at_chunk_boundary() && !continues(
                final(self).consumed(),
                final(self).length(),
                final(self).flags(),
            ),
            !old(self).finished() && old(self).at_chunk_boundary() && old(buf)@.len() > 0
                && (!old(self).chunk_active() || old(self).raw_pending() is Some) && !continues(old(self).consumed(), old(self).length(), old(self).flags())
                ==> res == Ok::<usize, UnxipError>(0) && final(self).finished()
                && final(self).consumed() == old(self).consumed(),
            old(self).raw_pending() is Some && old(self).raw_pending()->Some_0.len() > 0
                && old(buf)@.len() > 0 ==> {
                let p = old(self).raw_pending()->Some_0;
                let n = if p.len() < old(buf)@.len() { p.len() } else { old(buf)@.len() };
                &&& res == Ok::<usize, UnxipError>(n as usize)
                &&& final(buf)@.subrange(0, n as int) == p.subrange(0, n as int)
                &&& final(self).raw_pending() == Some(p.subrange(n as int, p.len() as int))
                &&& final(self).consumed() == old(self).consumed()
            },
    {
        if self.done || buf.len() == 0 {
            return Ok(0);
        }
        match self.chunk_decoder.take() {
            Some(mut c) => match c.read(buf) {
                Ok(n) => {
                    if n > 0 {
                        self.chunk_decoder = Some(c);
                        return Ok(n);
                    }
                },
                Err(e) => {
                    self.done = true;
                    return Err(e);
                },
            },
            None => {},
        }
        let ghost mut first = true;
        loop
            invariant
                self.wf(),
                !self.done,
                self.chunk_decoder is None,
                buf@.len() == old(buf)@.len(),
                buf@.len() > 0,
                !old(self).done,
                old(buf)@.len() > 0,
                self.content_length == old(self).content_length,
                self.content_read_size >= old(self).content_read_size,
                first ==> self.content_read_size == old(self).content_read_size
                    && self.flags == old(self).flags,
                !first ==> !old(self).at_chunk_boundary() || continues(
                    old(self).content_read_size,
                    old(self).content_length,
                    old(self).flags,
                ),
                old(self).raw_pending() is Some ==> old(self).raw_pending()->Some_0.len() == 0,
                old(self).at_chunk_boundary(),
            decreases remaining(self.content_read_size, self.content_length),
        {
            match self.load_next_chunk() {
                Ok(()) => {
                    if self.done {
                        return Ok(0);
                    }
                },
                Err(e) => {
                    self.done = true;
                    self.chunk_decoder = None;
                    return Err(e);
                },
            }
            proof {
                first = false;
            }
            match self.chunk_decoder.take() {
                Some(mut c) => match c.read(buf) {
                    Ok(n) => {
                        if n > 0 {
                            self.chunk_decoder = Some(c);
                            return Ok(n);
                        }
                    },
                    Err(e) => {
                        self.done = true;
                        return Err(e);
                    },
                },
                None => {},
            }
        }
    }
}

} // verus!
