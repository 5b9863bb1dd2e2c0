use vstd::prelude::*;

use vstd::bytes::{
    lemma_auto_spec_u32_to_from_le_bytes, spec_u32_from_le_bytes, spec_u32_to_le_bytes,
    u32_from_le_bytes, u32_to_le_bytes,
};
use vstd::slice::slice_subrange;

verus! {

/// Bytes in a frame before its payload: one for the kind, four for the length.
pub const HEADER_LEN: usize = 5;

/// The tag of a chunk of the output stream.
#[derive(Clone, Copy, Debug, PartialEq, Eq, Structural)]
pub enum ChunkKind {
    /// Terminal output, to be shown to the user.
    Data,
    /// Proof that the daemon is alive; its payload is discarded.
    Heartbeat,
}

/// Why a chunk could not be read from the output stream.
#[derive(Clone, Copy, Debug, PartialEq, Eq, Structural)]
pub enum ChunkError {
    /// The stream ended inside a frame.
    Truncated,
    /// The kind byte names no known kind.
    Malformed(u8),
    /// The frame declares a payload longer than the reader accepts; the
    /// stream cannot be read any further.
    Oversized { len: u32, limit: usize },
}

impl ChunkKind {
    /// The byte that stands for this kind on the wire.
    pub open spec fn tag(self) -> u8 {
        match self {
            ChunkKind::Data => 0,
            ChunkKind::Heartbeat => 1,
        }
    }

    /// The kind that a byte stands for, if any.
    pub open spec fn of_tag(v: u8) -> Option<ChunkKind> {
        if v == 0 {
            Some(ChunkKind::Data)
        } else if v == 1 {
            Some(ChunkKind::Heartbeat)
        } else {
            None
        }
    }

    pub fn to_u8(self) -> (r: u8)
        ensures
            r == self.tag(),
    {
        match self {
            ChunkKind::Data => 0,
            ChunkKind::Heartbeat => 1,
        }
    }

    /// Reads a kind byte; an unknown one is malformed.
    pub fn from_u8(v: u8) -> (r: Result<ChunkKind, ChunkError>)
        ensures
            r == match ChunkKind::of_tag(v) {
                Some(k) => Ok(k),
                None => Err(ChunkError::Malformed(v)),
            },
    {
        match v {
            0 => Ok(ChunkKind::Data),
            1 => Ok(ChunkKind::Heartbeat),
            _ => Err(ChunkError::Malformed(v)),
        }
    }
}

/// The encoding of a chunk: its kind byte, the payload's length as a
/// little-endian `u32`, then the payload.
pub open spec fn frame(kind: ChunkKind, payload: Seq<u8>) -> Seq<u8> {
    seq![kind.tag()] + spec_u32_to_le_bytes(payload.len() as u32) + payload
}

/// The payload length that a frame at the front of `input` declares.
pub open spec fn declared_len(input: Seq<u8>) -> u32 {
    spec_u32_from_le_bytes(input.subrange(1, 5))
}

/// Reads one frame from the front of `input`, accepting payloads of at most
/// `cap` bytes: the kind, the payload and the number of bytes the frame took.
/// The kind is validated first, then the length, and only then is the payload
/// needed.
pub open spec fn parse_chunk(input: Seq<u8>, cap: nat) -> Result<(ChunkKind, Seq<u8>, nat), ChunkError> {
    if input.len() < 1 {
        Err(ChunkError::Truncated)
    } else if ChunkKind::of_tag(input[0]) is None {
        Err(ChunkError::Malformed(input[0]))
    } else if input.len() < 5 {
        Err(ChunkError::Truncated)
    } else if declared_len(input) > cap {
        Err(ChunkError::Oversized { len: declared_len(input), limit: cap as usize })
    } else if input.len() < 5 + declared_len(input) {
        Err(ChunkError::Truncated)
    } else {
        Ok(
            (
                ChunkKind::of_tag(input[0]).unwrap(),
                input.subrange(5, 5 + declared_len(input)),
                (5 + declared_len(input)) as nat,
            ),
        )
    }
}

/// A chunk of the output stream, from the daemon to the client.
#[derive(Debug)]
pub struct Chunk {
    pub kind: ChunkKind,
    pub buf: Vec<u8>,
}

impl View for Chunk {
    type V = (ChunkKind, Seq<u8>);

    open spec fn view(&self) -> (ChunkKind, Seq<u8>) {
        (self.kind, self.buf@)
    }
}

/// What a chunk puts on the terminal: a data chunk its payload, a heartbeat
/// nothing.
pub open spec fn shown(c: (ChunkKind, Seq<u8>)) -> Seq<u8> {
    match c.0 {
        ChunkKind::Data => c.1,
        ChunkKind::Heartbeat => Seq::empty(),
    }
}

/// Compares the length field of a frame with the largest payload accepted.
pub fn payload_len(len_field: &[u8], cap: usize) -> (r: Result<usize, ChunkError>)
    requires
        len_field@.len() == 4,
    ensures
        r == if spec_u32_from_le_bytes(len_field@) > cap {
            Err(ChunkError::Oversized { len: spec_u32_from_le_bytes(len_field@), limit: cap })
        } else {
            Ok(spec_u32_from_le_bytes(len_field@) as usize)
        },
{
    let len = u32_from_le_bytes(len_field);
    if len as usize > cap {
        Err(ChunkError::Oversized { len, limit: cap })
    } else {
        Ok(len as usize)
    }
}

impl Chunk {
    /// Appends the frame of this chunk to `w`.
    pub fn write_to(&self, w: &mut Vec<u8>)
        requires
            self.buf@.len() <= u32::MAX,
        ensures
            final(w)@ == old(w)@ + frame(self.kind, self.buf@),
    {
        w.push(self.kind.to_u8());
        let len_bytes = u32_to_le_bytes(self.buf.len() as u32);
        let mut i: usize = 0;
        while i < 4
            invariant
                len_bytes@ == spec_u32_to_le_bytes(self.buf@.len() as u32),
                len_bytes@.len() == 4,
                0 <= i <= 4,
                w@ == old(w)@ + seq![self.kind.tag()] + len_bytes@.subrange(0, i as int),
            decreases 4 - i,
        {
            w.push(len_bytes[i]);
            i += 1;
            assert(len_bytes@.subrange(0, i as int) == len_bytes@.subrange(0, i - 1) + seq![
                len_bytes@[i - 1],
            ]);
        }
        let mut j: usize = 0;
        while j < self.buf.len()
            invariant
                0 <= j <= self.buf@.len(),
                w@ == old(w)@ + seq![self.kind.tag()] + len_bytes@ + self.buf@.subrange(0, j as int),
            decreases self.buf@.len() - j,
        {
            w.push(self.buf[j]);
            j += 1;
            assert(self.buf@.subrange(0, j as int) == self.buf@.subrange(0, j - 1) + seq![
                self.buf@[j - 1],
            ]);
        }
        assert(len_bytes@.subrange(0, 4) == len_bytes@);
        assert(self.buf@.subrange(0, self.buf@.len() as int) == self.buf@);
        assert(w@ == old(w)@ + frame(self.kind, self.buf@));
    }

    /// The bytes of this chunk that belong on the terminal.
    pub fn terminal_bytes(&self) -> (r: &[u8])
        ensures
            r@ == shown(self@),
    {
        match self.kind {
            ChunkKind::Data => self.buf.as_slice(),
            ChunkKind::Heartbeat => slice_subrange(self.buf.as_slice(), 0, 0),
        }
    }

    /// Reads the frame at the front of `input`, accepting payloads of at most
    /// `cap` bytes, and returns the chunk with the number of bytes it took.
    pub fn read_into(input: &[u8], cap: usize) -> (r: Result<(Chunk, usize), ChunkError>)
        ensures
            match (r, parse_chunk(input@, cap as nat)) {
                (Ok((c, n)), Ok((k, p, m))) => c.kind == k && c.buf@ == p && n == m,
                (Err(e), Err(f)) => e == f,
                _ => false,
            },
    {
        if input.len() < 1 {
            return Err(ChunkError::Truncated);
        }
        let kind = match ChunkKind::from_u8(input[0]) {
            Ok(k) => k,
            Err(e) => return Err(e),
        };
        if input.len() < HEADER_LEN {
            return Err(ChunkError::Truncated);
        }
        let len = match payload_len(slice_subrange(input, 1, HEADER_LEN), cap) {
            Ok(n) => n,
            Err(e) => return Err(e),
        };
        if input.len() - HEADER_LEN < len {
            return Err(ChunkError::Truncated);
        }
        let end: usize = HEADER_LEN + len;
        let mut buf: Vec<u8> = Vec::with_capacity(len);
        let mut i: usize = HEADER_LEN;
        while i < end
            invariant
                HEADER_LEN <= i <= end,
                end == 5 + len,
                end <= input@.len(),
                buf@ == input@.subrange(5, i as int),
            decreases end - i,
        {
            buf.push(input[i]);
            i += 1;
        }
        assert(buf@ == input@.subrange(5, 5 + declared_len(input@)));
        Ok((Chunk { kind, buf }, end))
    }
}

/// Round trip of a chunk: the frame of a payload that the reader accepts
/// (at most `cap` bytes, and at most `u32::MAX`) reads back as the same kind
/// and payload, and takes exactly the frame's bytes, whatever follows it.
pub proof fn lemma_chunk_round_trip(kind: ChunkKind, payload: Seq<u8>, rest: Seq<u8>, cap: nat)
    requires
        payload.len() <= cap,
        payload.len() <= u32::MAX,
    ensures
        parse_chunk(frame(kind, payload) + rest, cap) == Ok::<(ChunkKind, Seq<u8>, nat), ChunkError>(
            (kind, payload, (5 + payload.len()) as nat),
        ),
{
    lemma_auto_spec_u32_to_from_le_bytes();
    let s = frame(kind, payload) + rest;
    let len_bytes = spec_u32_to_le_bytes(payload.len() as u32);
    assert(s.subrange(1, 5) == len_bytes);
    assert(declared_len(s) == payload.len());
    assert(s.subrange(5, 5 + payload.len() as int) == payload);
}

/// A frame at the front of `input` whose kind byte is known and whose length
/// field exceeds `cap` is rejected as oversized on the strength of its first
/// five bytes alone: nothing of the payload is needed.
pub proof fn lemma_oversize_rejected(input: Seq<u8>, cap: nat)
    requires
        input.len() >= 5,
        ChunkKind::of_tag(input[0]) is Some,
        declared_len(input) > cap,
    ensures
        parse_chunk(input, cap) == Err::<(ChunkKind, Seq<u8>, nat), ChunkError>(
            ChunkError::Oversized { len: declared_len(input), limit: cap as usize },
        ),
        parse_chunk(input.subrange(0, 5), cap) == parse_chunk(input, cap),
{
    assert(input.subrange(0, 5).subrange(1, 5) == input.subrange(1, 5));
}

} // verus!
