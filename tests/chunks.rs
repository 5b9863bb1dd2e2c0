use shpool_protocol::{
    decode_all, payload_len, relay_output, Chunk, ChunkError, ChunkKind, BUF_SIZE, HEADER_LEN,
};

fn encode(kind: ChunkKind, payload: &[u8]) -> Vec<u8> {
    let mut out = Vec::new();
    Chunk { kind, buf: payload.to_vec() }.write_to(&mut out);
    out
}

#[test]
fn frame_layout_is_kind_length_payload() {
    let bytes = encode(ChunkKind::Heartbeat, b"abc");
    assert_eq!(bytes, vec![1, 3, 0, 0, 0, b'a', b'b', b'c']);
    let bytes = encode(ChunkKind::Data, &[]);
    assert_eq!(bytes, vec![0, 0, 0, 0, 0]);
}

#[test]
fn length_is_little_endian() {
    let payload = vec![7u8; 258];
    let bytes = encode(ChunkKind::Data, &payload);
    assert_eq!(&bytes[..HEADER_LEN], &[0, 2, 1, 0, 0]);
    assert_eq!(bytes.len(), HEADER_LEN + 258);
}

#[test]
fn chunk_round_trip_both_kinds() {
    for kind in [ChunkKind::Data, ChunkKind::Heartbeat] {
        for payload in [vec![], b"x".to_vec(), vec![0xAB; BUF_SIZE]] {
            let bytes = encode(kind, &payload);
            let (c, n) = Chunk::read_into(&bytes, BUF_SIZE).unwrap();
            assert_eq!(c.kind, kind);
            assert_eq!(c.buf, payload);
            assert_eq!(n, bytes.len());
        }
    }
}

#[test]
fn read_into_leaves_following_bytes() {
    let mut bytes = encode(ChunkKind::Data, b"hi");
    bytes.extend_from_slice(&[9, 9, 9]);
    let (c, n) = Chunk::read_into(&bytes, BUF_SIZE).unwrap();
    assert_eq!(c.buf, b"hi".to_vec());
    assert_eq!(n, 7);
}

#[test]
fn unknown_kind_is_malformed() {
    assert_eq!(ChunkKind::from_u8(0), Ok(ChunkKind::Data));
    assert_eq!(ChunkKind::from_u8(1), Ok(ChunkKind::Heartbeat));
    assert_eq!(ChunkKind::from_u8(2), Err(ChunkError::Malformed(2)));
    let r = Chunk::read_into(&[7, 0, 0, 0, 0], BUF_SIZE);
    assert_eq!(r.unwrap_err(), ChunkError::Malformed(7));
}

#[test]
fn short_input_is_truncated() {
    assert_eq!(Chunk::read_into(&[], BUF_SIZE).unwrap_err(), ChunkError::Truncated);
    assert_eq!(Chunk::read_into(&[0, 1, 0], BUF_SIZE).unwrap_err(), ChunkError::Truncated);
    assert_eq!(
        Chunk::read_into(&[0, 3, 0, 0, 0, 1, 2], BUF_SIZE).unwrap_err(),
        ChunkError::Truncated
    );
}

#[test]
fn oversized_frame_is_rejected_from_its_header() {
    let r = Chunk::read_into(&[0, 0xFF, 0xFF, 0xFF, 0xFF], BUF_SIZE);
    assert_eq!(
        r.unwrap_err(),
        ChunkError::Oversized { len: 0xFFFF_FFFF, limit: BUF_SIZE }
    );
    let mut just_over = vec![0u8, 0x01, 0x10, 0, 0];
    just_over.extend(vec![0u8; BUF_SIZE + 1]);
    assert_eq!(
        Chunk::read_into(&just_over, BUF_SIZE).unwrap_err(),
        ChunkError::Oversized { len: BUF_SIZE as u32 + 1, limit: BUF_SIZE }
    );
}

#[test]
fn payload_len_enforces_the_limit() {
    assert_eq!(payload_len(&[0, 0x10, 0, 0], BUF_SIZE), Ok(BUF_SIZE));
    assert_eq!(payload_len(&[5, 0, 0, 0], 4), Err(ChunkError::Oversized { len: 5, limit: 4 }));
    assert_eq!(payload_len(&[0, 0, 0, 0], 0), Ok(0));
}

#[test]
fn concatenated_frames_decode_in_order() {
    let mut stream = encode(ChunkKind::Data, b"one");
    stream.extend(encode(ChunkKind::Heartbeat, b""));
    stream.extend(encode(ChunkKind::Data, b"two"));
    stream.extend(encode(ChunkKind::Heartbeat, b"zz"));
    let chunks = decode_all(&stream, BUF_SIZE).unwrap();
    let got: Vec<(ChunkKind, Vec<u8>)> = chunks.into_iter().map(|c| (c.kind, c.buf)).collect();
    assert_eq!(
        got,
        vec![
            (ChunkKind::Data, b"one".to_vec()),
            (ChunkKind::Heartbeat, vec![]),
            (ChunkKind::Data, b"two".to_vec()),
            (ChunkKind::Heartbeat, b"zz".to_vec()),
        ]
    );
    assert_eq!(decode_all(&[], BUF_SIZE).unwrap().len(), 0);
}

#[test]
fn stream_with_a_byte_deleted_fails() {
    let mut stream = encode(ChunkKind::Data, b"hello");
    stream.extend(encode(ChunkKind::Data, b"world"));
    for i in 0..stream.len() {
        let mut cut = stream.clone();
        cut.remove(i);
        assert!(decode_all(&cut, BUF_SIZE).is_err(), "deleting byte {} went unnoticed", i);
    }
}

#[test]
fn stream_cut_inside_a_frame_is_truncated() {
    let mut stream = encode(ChunkKind::Data, b"abc");
    stream.extend(encode(ChunkKind::Data, b"def"));
    stream.pop();
    assert_eq!(decode_all(&stream, BUF_SIZE).unwrap_err(), ChunkError::Truncated);
}

#[test]
fn attach_output_skips_heartbeats() {
    let mut stream = encode(ChunkKind::Data, b"hello");
    stream.extend(encode(ChunkKind::Heartbeat, b""));
    stream.extend(encode(ChunkKind::Data, b" world"));
    assert_eq!(relay_output(&stream, BUF_SIZE).unwrap(), b"hello world".to_vec());
}

#[test]
fn heartbeat_payloads_never_shown() {
    let mut stream = encode(ChunkKind::Heartbeat, b"ping");
    stream.extend(encode(ChunkKind::Data, b"a"));
    stream.extend(encode(ChunkKind::Heartbeat, b"pong"));
    stream.extend(encode(ChunkKind::Data, b"b"));
    assert_eq!(relay_output(&stream, BUF_SIZE).unwrap(), b"ab".to_vec());
    let only_beats = encode(ChunkKind::Heartbeat, b"xyz");
    assert_eq!(relay_output(&only_beats, BUF_SIZE).unwrap(), Vec::<u8>::new());
}

#[test]
fn oversize_attack_shows_nothing() {
    let stream = vec![0u8, 0xFF, 0xFF, 0xFF, 0xFF, b'a', b'b'];
    assert_eq!(
        relay_output(&stream, BUF_SIZE).unwrap_err(),
        ChunkError::Oversized { len: 0xFFFF_FFFF, limit: BUF_SIZE }
    );
}

#[test]
fn terminal_bytes_by_kind() {
    let data = Chunk { kind: ChunkKind::Data, buf: b"out".to_vec() };
    assert_eq!(data.terminal_bytes(), b"out");
    let beat = Chunk { kind: ChunkKind::Heartbeat, buf: b"out".to_vec() };
    assert_eq!(beat.terminal_bytes(), b"");
    assert_eq!(ChunkKind::Data.to_u8(), 0);
    assert_eq!(ChunkKind::Heartbeat.to_u8(), 1);
}
