//! Tests of the byte-stuffing frame layer: exact encodings, incremental
//! decoding, corruption recovery, and agreement with an independent
//! consecutive-overhead stuffing implementation.

use netgadget::frame::stuff_bytes;
use netgadget::FeedResult;
use netgadget::FrameDecoder;

/// Feed a whole byte slice to a decoder, collecting completed frame payloads
/// and counting violations.
fn run_decoder(dec: &mut FrameDecoder, bytes: &[u8]) -> (Vec<Vec<u8>>, usize) {
    let mut frames: Vec<Vec<u8>> = Vec::new();
    let mut violations = 0;
    for &b in bytes {
        match dec.feed(b) {
            FeedResult::Consumed => {}
            FeedResult::Complete => {
                frames.push(dec.payload().clone());
                dec.restart();
            }
            FeedResult::Violation => {
                violations += 1;
            }
        }
    }
    (frames, violations)
}

fn frame_of(payload: &[u8]) -> Vec<u8> {
    let mut f = stuff_bytes(&payload.to_vec());
    f.push(0);
    f
}

#[test]
fn exact_encodings() {
    assert_eq!(stuff_bytes(&vec![]), vec![0x01]);
    assert_eq!(stuff_bytes(&vec![0x00]), vec![0x01, 0x01]);
    assert_eq!(stuff_bytes(&vec![0x11, 0x22, 0x33]), vec![0x04, 0x11, 0x22, 0x33]);
    assert_eq!(
        stuff_bytes(&vec![0x11, 0x22, 0x00, 0x33]),
        vec![0x03, 0x11, 0x22, 0x02, 0x33]
    );
    assert_eq!(stuff_bytes(&vec![0x00, 0x00]), vec![0x01, 0x01, 0x01]);
    // 254 delimiter-free bytes: exactly one maximal block, nothing after
    let long: Vec<u8> = (0..254u32).map(|i| (i % 255 + 1) as u8).collect();
    let enc = stuff_bytes(&long);
    assert_eq!(enc[0], 0xFF);
    assert_eq!(&enc[1..255], &long[..]);
    assert_eq!(enc.len(), 255);
}

#[test]
fn frame_round_trips() {
    let payloads: Vec<Vec<u8>> = vec![
        vec![],
        vec![0x00],
        vec![0x01],
        vec![0xFF],
        vec![0x11, 0x22, 0x00, 0x33],
        vec![0x00, 0x00, 0x00],
        (0..254u32).map(|i| (i % 254 + 1) as u8).collect(),
        (0..255u32).map(|i| (i % 254 + 1) as u8).collect(),
        (0..300u32).map(|i| (i % 7) as u8).collect(),
    ];
    for p in payloads {
        let mut dec = FrameDecoder::new(1024);
        let (frames, violations) = run_decoder(&mut dec, &frame_of(&p));
        assert_eq!(violations, 0, "payload {:?}", p);
        assert_eq!(frames, vec![p.clone()], "payload {:?}", p);
    }
}

#[test]
fn corrupt_then_valid_frame_yields_exactly_one_frame() {
    // A header promising four data bytes, cut short by a delimiter: a
    // stuffing violation that resets the decoder.
    let mut bytes = vec![0x05, 0x41, 0x00];
    let p = vec![0xAA, 0xBB, 0xCC];
    bytes.extend_from_slice(&frame_of(&p));
    let mut dec = FrameDecoder::new(64);
    let (frames, violations) = run_decoder(&mut dec, &bytes);
    assert_eq!(violations, 1);
    assert_eq!(frames, vec![p]);
}

#[test]
fn oversized_frame_is_dropped_and_decoding_resumes() {
    let mut dec = FrameDecoder::new(2);
    let big = vec![0x10, 0x20, 0x30]; // three bytes, over the two-byte bound
    let small = vec![0x40, 0x50];
    let mut bytes = frame_of(&big);
    bytes.extend_from_slice(&frame_of(&small));
    let (frames, violations) = run_decoder(&mut dec, &bytes);
    assert!(violations >= 1);
    // the dropped frame's trailing delimiter reads as a zero-length frame,
    // which upper layers discard; the next real frame is intact
    assert_eq!(frames, vec![Vec::<u8>::new(), small]);
}

#[test]
fn empty_frames_surface_as_empty_payloads() {
    // A lone delimiter is a zero-length frame; upper layers discard it.
    let mut dec = FrameDecoder::new(16);
    let (frames, violations) = run_decoder(&mut dec, &[0x00, 0x00]);
    assert_eq!(violations, 0);
    assert_eq!(frames, vec![Vec::<u8>::new(), Vec::<u8>::new()]);
}

#[test]
fn encoding_agrees_with_reference_implementation() {
    let payloads: Vec<Vec<u8>> = vec![
        vec![],
        vec![0x00],
        vec![0x01, 0x02, 0x03],
        vec![0x11, 0x22, 0x00, 0x33],
        vec![0x00, 0x00],
        (0..253u32).map(|i| (i % 200 + 1) as u8).collect(),
        (0..254u32).map(|i| (i % 200 + 1) as u8).collect(),
        (0..255u32).map(|i| (i % 200 + 1) as u8).collect(),
        (0..600u32).map(|i| (i % 11) as u8).collect(),
    ];
    for p in payloads {
        let ours = stuff_bytes(&p);
        let reference = cobs::encode_vec(&p);
        assert_eq!(ours, reference, "payload {:?}", p);
    }
}

#[test]
fn decoder_accepts_reference_encodings() {
    let payloads: Vec<Vec<u8>> = vec![
        vec![0x01, 0x02, 0x03],
        vec![0x00, 0xFF, 0x00],
        (0..400u32).map(|i| (i % 13) as u8).collect(),
    ];
    for p in payloads {
        let mut wire = cobs::encode_vec(&p);
        wire.push(0);
        let mut dec = FrameDecoder::new(1024);
        let (frames, violations) = run_decoder(&mut dec, &wire);
        assert_eq!(violations, 0);
        assert_eq!(frames, vec![p]);
    }
}
