//! Tests of the structured-message codec over the frame layer: round trips
//! through a byte channel, recovery from corrupt input, discarded frames,
//! and sink-failure propagation.

use netgadget::frame::stuff_bytes;
use netgadget::ByteChannel;
use netgadget::ChannelSink;
use netgadget::ChannelStream;
use netgadget::ControlMessage;
use netgadget::Decoder;
use netgadget::Encoder;
use netgadget::Message;
use netgadget::Sink;
use netgadget::Stream;

fn wire_of(m: &ControlMessage) -> Vec<u8> {
    let mut f = stuff_bytes(&m.encode());
    f.push(0);
    f
}

fn channel_with(bytes: &[u8], capacity: usize) -> ByteChannel {
    let mut ch = ByteChannel::new(capacity);
    for &b in bytes {
        ch.try_send(b).unwrap();
    }
    ch
}

#[test]
fn message_round_trip_through_encoder_and_decoder() {
    let messages = vec![
        ControlMessage { kind: 0, value: 0 },
        ControlMessage { kind: 7, value: 0x1234 },
        ControlMessage { kind: 0xFF, value: 0xFFFF },
        ControlMessage { kind: 1, value: 0x0100 },
    ];
    let sink = ChannelSink::new(ByteChannel::new(256));
    let mut enc: Encoder<ControlMessage, ChannelSink> = Encoder::new(sink, 64);
    for m in &messages {
        enc.accept(*m).unwrap();
    }
    let stream = ChannelStream::new(enc.into_output().channel);
    let mut dec: Decoder<ChannelStream, ControlMessage> = Decoder::new(stream, 64);
    for m in &messages {
        assert_eq!(dec.next(), Some(*m));
    }
    assert_eq!(dec.next(), None);
}

#[test]
fn decoder_recovers_after_corrupt_bytes() {
    let m = ControlMessage { kind: 3, value: 0xBEEF };
    // a truncated block (stuffing violation), then one valid frame
    let mut bytes = vec![0x05, 0x41, 0x00];
    bytes.extend_from_slice(&wire_of(&m));
    let stream = ChannelStream::new(channel_with(&bytes, 256));
    let mut dec: Decoder<ChannelStream, ControlMessage> = Decoder::new(stream, 64);
    assert_eq!(dec.next(), Some(m));
    assert_eq!(dec.next(), None);
}

#[test]
fn undecodable_and_empty_frames_are_discarded() {
    let m = ControlMessage { kind: 9, value: 42 };
    let mut bytes = Vec::new();
    bytes.push(0x00); // zero-length frame: discarded
    // a byte-valid frame of the wrong length: schema decode fails, discarded
    let mut bad = stuff_bytes(&vec![0x01, 0x02]);
    bad.push(0);
    bytes.extend_from_slice(&bad);
    bytes.extend_from_slice(&wire_of(&m));
    let stream = ChannelStream::new(channel_with(&bytes, 256));
    let mut dec: Decoder<ChannelStream, ControlMessage> = Decoder::new(stream, 64);
    assert_eq!(dec.next(), Some(m));
    assert_eq!(dec.next(), None);
}

#[test]
fn control_message_wire_format_is_exact() {
    let m = ControlMessage { kind: 0x05, value: 0x0201 };
    assert_eq!(m.encode(), vec![0x05, 0x01, 0x02]);
    assert_eq!(
        ControlMessage::decode(&vec![0x05, 0x01, 0x02]),
        Some(ControlMessage { kind: 0x05, value: 0x0201 })
    );
    assert_eq!(ControlMessage::decode(&vec![0x05, 0x01]), None);
    assert_eq!(ControlMessage::decode(&vec![]), None);
}

#[test]
fn encoder_propagates_sink_failure() {
    // the channel can hold only three bytes; a whole frame needs five
    let sink = ChannelSink::new(ByteChannel::new(3));
    let mut enc: Encoder<ControlMessage, ChannelSink> = Encoder::new(sink, 64);
    let r = enc.accept(ControlMessage { kind: 1, value: 0x0101 });
    assert!(r.is_err());
    // the partial frame went in; the message does not count as delivered
    assert_eq!(enc.output().channel.len(), 3);
}

#[test]
fn relay_moves_all_bytes_in_order() {
    let src = ChannelStream::new(channel_with(&[1, 2, 3, 4], 8));
    let dst = ChannelSink::new(ByteChannel::new(8));
    let mut src = src;
    let mut dst = dst;
    netgadget::relay(&mut src, &mut dst).unwrap();
    let mut out = dst.channel;
    assert_eq!(out.try_recv(), Ok(1));
    assert_eq!(out.try_recv(), Ok(2));
    assert_eq!(out.try_recv(), Ok(3));
    assert_eq!(out.try_recv(), Ok(4));
    assert!(out.try_recv().is_err());
}
