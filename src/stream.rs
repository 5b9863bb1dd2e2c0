use vstd::prelude::*;

use vstd::bytes::{lemma_auto_spec_u32_to_from_le_bytes, spec_u32_to_le_bytes};
use vstd::slice::slice_subrange;

use crate::chunk::{
    declared_len, frame, lemma_chunk_round_trip, parse_chunk, shown, Chunk, ChunkError, ChunkKind,
};

verus! {

/// Reads frames from `input` until it is used up: the chunks in order, or the
/// first error.
pub open spec fn parse_stream(input: Seq<u8>, cap: nat) -> Result<Seq<(ChunkKind, Seq<u8>)>, ChunkError>
    decreases input.len(),
{
    if input.len() == 0 {
        Ok(Seq::empty())
    } else {
        match parse_chunk(input, cap) {
            Err(e) => Err(e),
            Ok((k, p, n)) => if 0 < n <= input.len() {
                match parse_stream(input.subrange(n as int, input.len() as int), cap) {
                    Ok(rest) => Ok(seq![(k, p)] + rest),
                    Err(e) => Err(e),
                }
            } else {
                Err(ChunkError::Truncated)
            },
        }
    }
}

/// The frames of `chunks`, one after the other.
pub open spec fn encode_all(chunks: Seq<(ChunkKind, Seq<u8>)>) -> Seq<u8>
    decreases chunks.len(),
{
    if chunks.len() == 0 {
        Seq::empty()
    } else {
        frame(chunks[0].0, chunks[0].1) + encode_all(chunks.drop_first())
    }
}

/// What `chunks` put on the terminal: the data payloads, in order.
pub open spec fn shown_all(chunks: Seq<(ChunkKind, Seq<u8>)>) -> Seq<u8>
    decreases chunks.len(),
{
    if chunks.len() == 0 {
        Seq::empty()
    } else {
        shown_all(chunks.drop_last()) + shown(chunks.last())
    }
}

/// Every payload fits a frame and is accepted by a reader with limit `cap`.
pub open spec fn payloads_fit(chunks: Seq<(ChunkKind, Seq<u8>)>, cap: nat) -> bool {
    forall|i: int| 0 <= i < chunks.len() ==> #[trigger] chunks[i].1.len() <= cap && chunks[i].1.len() <= u32::MAX
}

/// What the output pump puts on the terminal for the stream `input`.
pub open spec fn relay_spec(input: Seq<u8>, cap: nat) -> Result<Seq<u8>, ChunkError> {
    match parse_stream(input, cap) {
        Ok(chunks) => Ok(shown_all(chunks)),
        Err(e) => Err(e),
    }
}

pub open spec fn views(v: Seq<Chunk>) -> Seq<(ChunkKind, Seq<u8>)> {
    v.map_values(|c: Chunk| c@)
}

/// Reads every frame of `input`, accepting payloads of at most `cap` bytes.
pub fn decode_all(input: &[u8], cap: usize) -> (r: Result<Vec<Chunk>, ChunkError>)
    ensures
        match (r, parse_stream(input@, cap as nat)) {
            (Ok(v), Ok(s)) => views(v@) == s,
            (Err(e), Err(f)) => e == f,
            _ => false,
        },
{
    let mut out: Vec<Chunk> = Vec::new();
    let mut pos: usize = 0;
    assert(input@.subrange(0, input@.len() as int) == input@);
    assert(views(out@) == Seq::<(ChunkKind, Seq<u8>)>::empty());
    proof {
        match parse_stream(input@, cap as nat) {
            Ok(s) => assert(views(out@) + s == s),
            Err(_) => {},
        }
    }
    while pos < input.len()
        invariant
            0 <= pos <= input@.len(),
            parse_stream(input@, cap as nat) == match parse_stream(
                input@.subrange(pos as int, input@.len() as int),
                cap as nat,
            ) {
                Ok(rest) => Ok(views(out@) + rest),
                Err(e) => Err(e),
            },
        decreases input@.len() - pos,
    {
        let rest = slice_subrange(input, pos, input.len());
        match Chunk::read_into(rest, cap) {
            Err(e) => {
                return Err(e);
            },
            Ok((c, n)) => {
                proof {
                    let later = rest@.subrange(n as int, rest@.len() as int);
                    assert(later == input@.subrange(pos + n, input@.len() as int));
                    assert(views(out@.push(c)) == views(out@).push(c@));
                    match parse_stream(later, cap as nat) {
                        Ok(tail) => {
                            assert(views(out@) + (seq![c@] + tail) == views(out@).push(c@) + tail);
                        },
                        Err(_) => {},
                    }
                }
                out.push(c);
                pos = pos + n;
            },
        }
    }
    assert(input@.subrange(pos as int, input@.len() as int).len() == 0);
    assert(views(out@) + Seq::<(ChunkKind, Seq<u8>)>::empty() == views(out@));
    Ok(out)
}

/// The bytes that the output pump puts on the terminal for the stream
/// `input`: the data payloads in order, or the first error of the stream.
pub fn relay_output(input: &[u8], cap: usize) -> (r: Result<Vec<u8>, ChunkError>)
    ensures
        match (r, relay_spec(input@, cap as nat)) {
            (Ok(v), Ok(s)) => v@ == s,
            (Err(e), Err(f)) => e == f,
            _ => false,
        },
{
    let chunks = match decode_all(input, cap) {
        Ok(v) => v,
        Err(e) => return Err(e),
    };
    let mut out: Vec<u8> = Vec::new();
    let mut i: usize = 0;
    while i < chunks.len()
        invariant
            0 <= i <= chunks@.len(),
            out@ == shown_all(views(chunks@).subrange(0, i as int)),
        decreases chunks@.len() - i,
    {
        let bytes = chunks[i].terminal_bytes();
        let mut j: usize = 0;
        while j < bytes.len()
            invariant
                0 <= i < chunks@.len(),
                0 <= j <= bytes@.len(),
                bytes@ == shown(chunks@[i as int]@),
                out@ == shown_all(views(chunks@).subrange(0, i as int)) + bytes@.subrange(0, j as int),
            decreases bytes@.len() - j,
        {
            out.push(bytes[j]);
            j += 1;
            assert(bytes@.subrange(0, j as int) == bytes@.subrange(0, j - 1) + seq![bytes@[j - 1]]);
        }
        proof {
            let s = views(chunks@).subrange(0, i + 1);
            assert(s.drop_last() == views(chunks@).subrange(0, i as int));
            assert(bytes@.subrange(0, j as int) == bytes@);
        }
        i += 1;
    }
    assert(views(chunks@).subrange(0, i as int) == views(chunks@));
    Ok(out)
}

/// Frames of valid chunks followed by any bytes read back as those chunks,
/// followed by whatever the rest reads as: a reader never loses its place
/// at a frame boundary.
pub proof fn lemma_stream_prefix(chunks: Seq<(ChunkKind, Seq<u8>)>, tail: Seq<u8>, cap: nat)
    requires
        payloads_fit(chunks, cap),
    ensures
        parse_stream(encode_all(chunks) + tail, cap) == match parse_stream(tail, cap) {
            Ok(rest) => Ok(chunks + rest),
            Err(e) => Err(e),
        },
    decreases chunks.len(),
{
    if chunks.len() > 0 {
        let rest = chunks.drop_first();
        let c = chunks[0];
        assert(c.1.len() <= cap && c.1.len() <= u32::MAX) by {
            assert(payloads_fit(chunks, cap));
            assert(chunks[0].1.len() <= cap);
        }
        assert(payloads_fit(rest, cap)) by {
            assert forall|i: int| 0 <= i < rest.len() implies #[trigger] rest[i].1.len() <= cap
                && rest[i].1.len() <= u32::MAX by {
                assert(rest[i] == chunks[i + 1]);
            }
        }
        let after = encode_all(rest) + tail;
        lemma_chunk_round_trip(c.0, c.1, after, cap);
        lemma_stream_prefix(rest, tail, cap);
        let all = encode_all(chunks) + tail;
        assert(all == frame(c.0, c.1) + after);
        let n = 5 + c.1.len();
        lemma_auto_spec_u32_to_from_le_bytes();
        assert(frame(c.0, c.1).len() == n);
        assert(all.subrange(n as int, all.len() as int) == after);
        match parse_stream(tail, cap) {
            Ok(r) => {
                assert(seq![(c.0, c.1)] + (rest + r) == chunks + r);
            },
            Err(_) => {},
        }
    } else {
        assert(encode_all(chunks) + tail == tail);
        assert(chunks == Seq::<(ChunkKind, Seq<u8>)>::empty());
        match parse_stream(tail, cap) {
            Ok(r) => {
                assert(chunks + r == r);
            },
            Err(_) => {},
        }
    }
}

/// A stream of concatenated frames reads back as the same chunks, in the
/// same order, with no chunk lost, added or misaligned.
pub proof fn lemma_stream_round_trip(chunks: Seq<(ChunkKind, Seq<u8>)>, cap: nat)
    requires
        payloads_fit(chunks, cap),
    ensures
        parse_stream(encode_all(chunks), cap) == Ok::<Seq<(ChunkKind, Seq<u8>)>, ChunkError>(chunks),
{
    lemma_stream_prefix(chunks, Seq::empty(), cap);
    assert(encode_all(chunks) + Seq::<u8>::empty() == encode_all(chunks));
    assert(chunks + Seq::<(ChunkKind, Seq<u8>)>::empty() == chunks);
}

/// Bytes that hold the header of a valid frame but fewer payload bytes than
/// it declares read as a truncated stream.
proof fn lemma_short_frame_truncated(bytes: Seq<u8>, kind: ChunkKind, len: nat, cap: nat)
    requires
        len <= cap,
        len <= u32::MAX,
        bytes.len() >= 1,
        bytes.len() < 5 + len,
        bytes[0] == kind.tag(),
        bytes.len() >= 5 ==> bytes.subrange(1, 5) == spec_u32_to_le_bytes(len as u32),
    ensures
        parse_stream(bytes, cap) == Err::<Seq<(ChunkKind, Seq<u8>)>, ChunkError>(ChunkError::Truncated),
{
    lemma_auto_spec_u32_to_from_le_bytes();
    assert(ChunkKind::of_tag(bytes[0]) == Some(kind));
    if bytes.len() >= 5 {
        assert(spec_u32_to_le_bytes(len as u32).len() == 4);
        assert(declared_len(bytes) == len);
    }
    assert(parse_chunk(bytes, cap) == Err::<(ChunkKind, Seq<u8>, nat), ChunkError>(
        ChunkError::Truncated,
    ));
}

/// A stream of valid frames cut anywhere but at a frame boundary reads as
/// truncated: the first `i` chunks in full, then the first `m` bytes of the
/// next frame, with `m` neither zero nor the whole frame.
pub proof fn lemma_cut_stream_truncated(
    chunks: Seq<(ChunkKind, Seq<u8>)>,
    i: int,
    m: int,
    cap: nat,
)
    requires
        payloads_fit(chunks, cap),
        0 <= i < chunks.len(),
        0 < m < 5 + chunks[i].1.len(),
    ensures
        parse_stream(
            encode_all(chunks.subrange(0, i)) + frame(chunks[i].0, chunks[i].1).subrange(0, m),
            cap,
        ) == Err::<Seq<(ChunkKind, Seq<u8>)>, ChunkError>(ChunkError::Truncated),
{
    let head = chunks.subrange(0, i);
    assert(payloads_fit(head, cap)) by {
        assert forall|j: int| 0 <= j < head.len() implies #[trigger] head[j].1.len() <= cap
            && head[j].1.len() <= u32::MAX by {
            assert(head[j] == chunks[j]);
        }
    }
    assert(chunks[i].1.len() <= cap && chunks[i].1.len() <= u32::MAX);
    let c = chunks[i];
    let cut = frame(c.0, c.1).subrange(0, m);
    lemma_auto_spec_u32_to_from_le_bytes();
    if m >= 5 {
        assert(cut.subrange(1, 5) == spec_u32_to_le_bytes(c.1.len() as u32));
    }
    lemma_short_frame_truncated(cut, c.0, c.1.len(), cap);
    lemma_stream_prefix(head, cut, cap);
}

/// A stream of valid frames whose last frame lost one byte of its payload
/// reads as truncated, never as other chunks.
pub proof fn lemma_payload_byte_lost(
    chunks: Seq<(ChunkKind, Seq<u8>)>,
    kind: ChunkKind,
    payload: Seq<u8>,
    j: int,
    cap: nat,
)
    requires
        payloads_fit(chunks, cap),
        payload.len() <= cap,
        payload.len() <= u32::MAX,
        0 <= j < payload.len(),
    ensures
        parse_stream(
            encode_all(chunks) + (seq![kind.tag()] + spec_u32_to_le_bytes(payload.len() as u32)
                + payload.remove(j)),
            cap,
        ) == Err::<Seq<(ChunkKind, Seq<u8>)>, ChunkError>(ChunkError::Truncated),
{
    let last = seq![kind.tag()] + spec_u32_to_le_bytes(payload.len() as u32) + payload.remove(j);
    lemma_auto_spec_u32_to_from_le_bytes();
    assert(last.subrange(1, 5) == spec_u32_to_le_bytes(payload.len() as u32));
    lemma_short_frame_truncated(last, kind, payload.len(), cap);
    lemma_stream_prefix(chunks, last, cap);
}

/// Heartbeats never reach the terminal: for any mix of data and heartbeat
/// chunks, the output pump writes exactly the data payloads, in order.
pub proof fn lemma_heartbeats_invisible(chunks: Seq<(ChunkKind, Seq<u8>)>, cap: nat)
    requires
        payloads_fit(chunks, cap),
    ensures
        relay_spec(encode_all(chunks), cap) == Ok::<Seq<u8>, ChunkError>(shown_all(chunks)),
{
    lemma_stream_round_trip(chunks, cap);
}

} // verus!
