//! Framing behaviour of the stream decoder, cross-checked against the
//! cobs crate's encoder.

use rover::frame::{decode_frame, FrameError, PushOutcome, StreamDecoder, FRAME_CAPACITY};

/// Feed bytes one at a time, collecting every reported frame or error.
fn feed(dec: &mut StreamDecoder, bytes: &[u8]) -> Vec<Result<Vec<u8>, FrameError>> {
    let mut events = Vec::new();
    for &b in bytes {
        match dec.push_byte(b) {
            PushOutcome::Pending => {}
            PushOutcome::Frame(p) => events.push(Ok(p)),
            PushOutcome::Corrupt(e) => events.push(Err(e)),
        }
    }
    events
}

/// One frame on the wire: the cobs encoding plus the delimiter.
fn wire(payload: &[u8]) -> Vec<u8> {
    let mut w = cobs::encode_vec(payload);
    w.push(0);
    w
}

#[test]
fn decodes_single_frame_bytewise() {
    let payload = b"hello rover";
    let mut dec = StreamDecoder::new();
    let events = feed(&mut dec, &wire(payload));
    assert_eq!(events.len(), 1);
    assert_eq!(events[0], Ok(payload.to_vec()));
}

#[test]
fn decodes_payload_with_embedded_zeros() {
    let payload = vec![1u8, 0, 2, 0, 0, 3, 0];
    let mut dec = StreamDecoder::new();
    let events = feed(&mut dec, &wire(&payload));
    assert_eq!(events, vec![Ok(payload)]);
}

#[test]
fn decodes_empty_payload() {
    let payload: Vec<u8> = Vec::new();
    let mut dec = StreamDecoder::new();
    let events = feed(&mut dec, &wire(&payload));
    assert_eq!(events, vec![Ok(Vec::new())]);
}

#[test]
fn stray_delimiters_report_nothing() {
    let mut dec = StreamDecoder::new();
    let events = feed(&mut dec, &[0, 0, 0]);
    assert!(events.is_empty());
}

#[test]
fn truncated_block_is_malformed() {
    // The header promises four data bytes but the frame ends early.
    let mut dec = StreamDecoder::new();
    let events = feed(&mut dec, &[5, 1, 2, 0]);
    assert_eq!(events, vec![Err(FrameError::Malformed)]);
}

#[test]
fn resyncs_after_corrupt_frame() {
    // A corrupted frame, then a valid one: the valid frame still
    // decodes intact.
    let payload = b"after the storm";
    let mut stream = vec![9, 1, 0];
    stream.extend_from_slice(&wire(payload));
    let mut dec = StreamDecoder::new();
    let events = feed(&mut dec, &stream);
    assert_eq!(events.len(), 2);
    assert_eq!(events[0], Err(FrameError::Malformed));
    assert_eq!(events[1], Ok(payload.to_vec()));
}

#[test]
fn oversized_frame_overflows_once_then_resyncs() {
    let mut stream = vec![7u8; FRAME_CAPACITY + 40];
    stream.push(0);
    let payload = b"fits";
    stream.extend_from_slice(&wire(payload));
    let mut dec = StreamDecoder::new();
    let events = feed(&mut dec, &stream);
    assert_eq!(events.len(), 2);
    assert_eq!(events[0], Err(FrameError::Overflow));
    assert_eq!(events[1], Ok(payload.to_vec()));
}

#[test]
fn chunk_boundaries_do_not_matter() {
    let mut stream = Vec::new();
    stream.extend_from_slice(&wire(b"one"));
    stream.extend_from_slice(&wire(&[0u8, 255, 0]));
    stream.extend_from_slice(&wire(b"three"));

    let mut bytewise = StreamDecoder::new();
    let expected = feed(&mut bytewise, &stream);
    assert_eq!(expected.len(), 3);

    for chunk_len in [2usize, 3, 7] {
        let mut dec = StreamDecoder::new();
        let mut events = Vec::new();
        for chunk in stream.chunks(chunk_len) {
            events.extend(feed(&mut dec, chunk));
        }
        assert_eq!(events, expected);
    }
}

#[test]
fn push_chunk_accounts_for_every_byte() {
    // A chunk holding one and a half frames: the first call consumes
    // up to the first delimiter and reports the frame, the second
    // consumes the rest and reports nothing; the tail arrives later.
    let first = b"front";
    let second = b"back half";
    let mut chunk = wire(first);
    let tail = wire(second);
    let (head, rest) = tail.split_at(3);
    chunk.extend_from_slice(head);

    let mut dec = StreamDecoder::new();
    let (consumed, outcome) = dec.push_chunk(&chunk, 0);
    assert_eq!(consumed, wire(first).len());
    match outcome {
        PushOutcome::Frame(p) => assert_eq!(p, first.to_vec()),
        other => panic!("expected a frame, got {:?}", other),
    }
    let (consumed2, outcome2) = dec.push_chunk(&chunk, consumed);
    assert_eq!(consumed2, chunk.len());
    assert!(matches!(outcome2, PushOutcome::Pending));

    let (consumed3, outcome3) = dec.push_chunk(&rest.to_vec(), 0);
    assert_eq!(consumed3, rest.len());
    match outcome3 {
        PushOutcome::Frame(p) => assert_eq!(p, second.to_vec()),
        other => panic!("expected a frame, got {:?}", other),
    }
}

#[test]
fn frame_at_capacity_fits_one_byte_more_fails() {
    // A 127-byte payload without zeros stuffs to exactly the scratch
    // capacity and decodes; a 128-byte one overflows.
    let fits = vec![5u8; FRAME_CAPACITY - 1];
    let mut dec = StreamDecoder::new();
    assert_eq!(feed(&mut dec, &wire(&fits)), vec![Ok(fits)]);

    let too_big = vec![5u8; FRAME_CAPACITY];
    let events = feed(&mut dec, &wire(&too_big));
    assert_eq!(events, vec![Err(FrameError::Overflow)]);
}

#[test]
fn decode_frame_matches_cobs_encoding() {
    let payloads: Vec<Vec<u8>> = vec![
        Vec::new(),
        vec![0],
        vec![42],
        b"a longer payload with text".to_vec(),
        (1u8..=120).collect(),
    ];
    for p in payloads {
        let raw = cobs::encode_vec(&p);
        assert_eq!(decode_frame(&raw), Ok(p));
    }
}
