use imcp::buffer::ByteBuf;
use imcp::error::DecodeError;
use imcp::frame::{Address, Frame, FramePayload};
use imcp::parser::FrameParser;
use imcp::{EOF, ESC, ESC_XOR, SOF};

#[test]
fn test_parser_stuffed_frame() {
    let mut rx_buf = [0u8; 64];
    let mut frame_buf = [0u8; 64];
    let mut parser = FrameParser::new(&mut rx_buf, &mut frame_buf);

    let stuffed_frame: &[u8] = &[
        SOF,
        0x01,
        0x02,
        0x05,
        0x03,
        0x00,
        0x01,
        ESC,
        SOF ^ ESC_XOR,
        0x03,
        0xF9,
        EOF,
    ];
    println!("{:X?}", stuffed_frame);

    parser.write_data(stuffed_frame).unwrap();

    let frame_res = parser.next_frame().unwrap();
    let frame = frame_res.unwrap();

    let expected_data: &[u8] = &[0x01, SOF, 0x03];
    assert_eq!(
        frame.payload(),
        &FramePayload::Data(ByteBuf::from_slice(expected_data).unwrap())
    );
    assert!(parser.next_frame().is_none());
}

#[test]
fn test_parser_sync_loss_recovery_with_sof() {
    let mut rx_buf = [0u8; 64];
    let mut frame_buf = [0u8; 64];
    let mut parser = FrameParser::new(&mut rx_buf, &mut frame_buf);

    let junk: &[u8] = &[0xAA, 0xBB, 0xCC];
    let frame1: &[u8] = &[SOF, 0x01, 0x02, 0x00, 0x00, 0x00, 0x03, EOF];
    let frame2: &[u8] = &[SOF, 0x01, 0x03, 0x00, 0x00, 0x00, 0x02, EOF];

    parser.write_data(junk).unwrap();
    parser.write_data(frame1).unwrap();
    parser.write_data(frame2).unwrap();

    let f1 = parser.next_frame().unwrap().unwrap();
    assert_eq!(f1.from_address(), 0x02);

    let f2 = parser.next_frame().unwrap().unwrap();
    assert_eq!(f2.from_address(), 0x03);

    assert!(parser.next_frame().is_none());
}

#[test]
fn test_parser_incomplete_stuffed() {
    let mut rx_buf = [0u8; 64];
    let mut frame_buf = [0u8; 64];
    let mut parser = FrameParser::new(&mut rx_buf, &mut frame_buf);

    let part1: &[u8] = &[SOF, 0x01, 0x02, 0x05, 0x03, 0x00, 0x01, ESC];
    parser.write_data(part1).unwrap();

    assert!(parser.next_frame().is_none());

    let part2: &[u8] = &[SOF ^ ESC_XOR, 0x03, 0xF9, EOF];
    parser.write_data(part2).unwrap();

    let frame = parser.next_frame().unwrap().unwrap();
    let expected_data: &[u8] = &[0x01, SOF, 0x03];
    assert_eq!(
        frame.payload(),
        &FramePayload::Data(ByteBuf::from_slice(expected_data).unwrap())
    );
    assert!(parser.next_frame().is_none());
}

#[test]
fn test_roundtrip_encode_decode_with_stuffing() {
    let test_data: &[u8] = &[0x01, SOF, 0x03, EOF, 0x05, ESC, 0x07];
    let original_frame = Frame::new(
        Address::Broadcast,
        0x42,
        FramePayload::Data(ByteBuf::from_slice(test_data).unwrap()),
    );

    let mut encode_buffer = [0u8; 128];

    let mut rx_buf = [0u8; 128];
    let mut frame_buf = [0u8; 128];
    let mut parser = FrameParser::new(&mut rx_buf, &mut frame_buf);

    let encoded_len = original_frame.encode(&mut encode_buffer).unwrap();
    let encoded_slice = &encode_buffer[..encoded_len];

    parser.write_data(encoded_slice).unwrap();

    let decode_result = parser.next_frame();

    assert!(decode_result.is_some(), "フレームがデコードされませんでした");
    let decoded_frame = decode_result.unwrap().expect("デコード中にエラーが発生しました");

    assert_eq!(
        original_frame, decoded_frame,
        "エンコード前後でフレームが一致しません"
    );

    assert!(
        parser.next_frame().is_none(),
        "パーサーに余分なフレームが残っています"
    );
}

fn wire_bytes(frame: &Frame) -> Vec<u8> {
    let mut wire = [0u8; 160];
    let len = frame.encode(&mut wire).unwrap();
    wire[..len].to_vec()
}

fn stuffing_frame() -> Frame {
    Frame::new(
        Address::Broadcast,
        0xFD,
        FramePayload::SetCommand(ByteBuf::from_slice(&[SOF, EOF, ESC, 0x20, SOF]).unwrap()),
    )
}

#[test]
fn every_chunking_gives_the_same_frame() {
    let frame = stuffing_frame();
    let wire = wire_bytes(&frame);
    for first in 0..=wire.len() {
        for second in first..=wire.len() {
            let mut rx_buf = [0u8; 64];
            let mut frame_buf = [0u8; 64];
            let mut parser = FrameParser::new(&mut rx_buf, &mut frame_buf);
            let chunks = [&wire[..first], &wire[first..second], &wire[second..]];
            let mut found = Vec::new();
            for chunk in chunks {
                parser.write_data(chunk).unwrap();
                if let Some(result) = parser.next_frame() {
                    found.push(result);
                }
            }
            assert_eq!(found, vec![Ok(frame.clone())]);
            assert!(parser.next_frame().is_none());
        }
    }
}

#[test]
fn byte_by_byte_gives_the_frame_at_the_last_byte() {
    let frame = stuffing_frame();
    let wire = wire_bytes(&frame);
    let mut rx_buf = [0u8; 4];
    let mut frame_buf = [0u8; 16];
    let mut parser = FrameParser::new(&mut rx_buf, &mut frame_buf);
    for (i, byte) in wire.iter().enumerate() {
        assert_eq!(parser.write_data(&[*byte]), Ok(1));
        let result = parser.next_frame();
        if i + 1 < wire.len() {
            assert_eq!(result, None);
        } else {
            assert_eq!(result, Some(Ok(frame.clone())));
        }
    }
}

#[test]
fn junk_before_a_frame_is_skipped() {
    let frame = stuffing_frame();
    let mut input = vec![0x00, EOF, ESC, ESC, 0x55, EOF, ESC];
    input.extend_from_slice(&wire_bytes(&frame));
    let mut rx_buf = [0u8; 64];
    let mut frame_buf = [0u8; 64];
    let mut parser = FrameParser::new(&mut rx_buf, &mut frame_buf);
    parser.write_data(&input).unwrap();
    assert_eq!(parser.next_frame(), Some(Ok(frame)));
    assert_eq!(parser.next_frame(), None);
}

#[test]
fn a_start_of_frame_restarts_the_frame() {
    let frame = Frame::new(Address::Unicast(0x01), 0x02, FramePayload::Ping);
    let mut input = vec![SOF, 0x01, 0x02, 0x05, ESC];
    input.extend_from_slice(&wire_bytes(&frame));
    let mut rx_buf = [0u8; 64];
    let mut frame_buf = [0u8; 64];
    let mut parser = FrameParser::new(&mut rx_buf, &mut frame_buf);
    parser.write_data(&input).unwrap();
    assert_eq!(parser.next_frame(), Some(Ok(frame)));
    assert_eq!(parser.next_frame(), None);
}

#[test]
fn bad_escape_sequences_are_errors() {
    let mut rx_buf = [0u8; 64];
    let mut frame_buf = [0u8; 64];
    let mut parser = FrameParser::new(&mut rx_buf, &mut frame_buf);
    parser.write_data(&[SOF, 0x01, ESC, EOF]).unwrap();
    assert_eq!(
        parser.next_frame(),
        Some(Err(DecodeError::InvalidEscapeSequence))
    );
    assert_eq!(parser.next_frame(), None);

    parser.write_data(&[SOF, 0x01, ESC, ESC, 0x02, EOF]).unwrap();
    assert_eq!(
        parser.next_frame(),
        Some(Err(DecodeError::InvalidEscapeSequence))
    );
    // The parser waits for the next start of frame: the rest is skipped.
    assert_eq!(parser.next_frame(), None);

    let ping = Frame::new(Address::Unicast(0x01), 0x02, FramePayload::Ping);
    parser.write_data(&wire_bytes(&ping)).unwrap();
    assert_eq!(parser.next_frame(), Some(Ok(ping)));
}

#[test]
fn a_frame_longer_than_the_frame_buffer_is_an_error() {
    let mut rx_buf = [0u8; 64];
    let mut frame_buf = [0u8; 6];
    let mut parser = FrameParser::new(&mut rx_buf, &mut frame_buf);
    let ping = Frame::new(Address::Unicast(0x01), 0x02, FramePayload::Ping);
    parser.write_data(&wire_bytes(&ping)).unwrap();
    assert_eq!(parser.next_frame(), Some(Ok(ping)));

    let ack = Frame::new(Address::Unicast(0x01), 0x02, FramePayload::Ack(0x01));
    parser.write_data(&wire_bytes(&ack)).unwrap();
    assert_eq!(
        parser.next_frame(),
        Some(Err(DecodeError::FrameBufferTooSmall))
    );
    assert_eq!(parser.next_frame(), None);
}

#[test]
fn decode_errors_come_out_of_the_parser() {
    let mut rx_buf = [0u8; 64];
    let mut frame_buf = [0u8; 64];
    let mut parser = FrameParser::new(&mut rx_buf, &mut frame_buf);
    parser.write_data(&[SOF, EOF]).unwrap();
    assert_eq!(
        parser.next_frame(),
        Some(Err(DecodeError::InvalidPayloadLength))
    );
    parser
        .write_data(&[SOF, 0x01, 0x02, 0x00, 0x00, 0x00, 0x04, EOF])
        .unwrap();
    assert_eq!(parser.next_frame(), Some(Err(DecodeError::InvalidChecksum)));
    parser
        .write_data(&[SOF, 0x01, 0x02, 0x07, 0x00, 0x00, 0x04, EOF])
        .unwrap();
    assert_eq!(
        parser.next_frame(),
        Some(Err(DecodeError::UnknownFrameType(7)))
    );
}

#[test]
fn write_data_needs_room() {
    let mut rx_buf = [0u8; 8];
    let mut frame_buf = [0u8; 8];
    let mut parser = FrameParser::new(&mut rx_buf, &mut frame_buf);
    assert_eq!(parser.write_data(&[0u8; 9]), Err(DecodeError::FrameBufferTooSmall));
    assert_eq!(parser.write_data(&[0u8; 8]), Ok(8));
    assert_eq!(parser.write_data(&[0u8; 1]), Err(DecodeError::FrameBufferTooSmall));
    assert_eq!(parser.write_data(&[]), Ok(0));
    // Scanning frees the room again.
    assert_eq!(parser.next_frame(), None);
    assert_eq!(parser.write_data(&[0u8; 8]), Ok(8));
}

#[test]
fn consumed_bytes_are_reclaimed() {
    let mut rx_buf = [0u8; 12];
    let mut frame_buf = [0u8; 8];
    let mut parser = FrameParser::new(&mut rx_buf, &mut frame_buf);
    let ping = Frame::new(Address::Unicast(0x01), 0x02, FramePayload::Ping);
    let pong = Frame::new(Address::Unicast(0x01), 0x02, FramePayload::Pong);
    let mut input = wire_bytes(&ping);
    input.extend_from_slice(&wire_bytes(&pong)[..4]);
    parser.write_data(&input).unwrap();
    assert_eq!(parser.next_frame(), Some(Ok(ping)));
    parser.consume_rx_buffer();
    parser.write_data(&wire_bytes(&pong)[4..]).unwrap();
    assert_eq!(parser.next_frame(), Some(Ok(pong)));
    assert_eq!(parser.next_frame(), None);
}

#[test]
fn a_flipped_bit_on_the_wire_gives_one_error() {
    let frames = [
        stuffing_frame(),
        Frame::new(Address::Unicast(0x7D), 0x00, FramePayload::Ping),
        Frame::new(
            Address::Unicast(0x01),
            0x7F,
            FramePayload::SetAddress { address: 0xDF, id: 0xFDFD_FEFF },
        ),
        Frame::new(
            Address::Broadcast,
            0xBD,
            FramePayload::Data(ByteBuf::from_slice(&[0x7D, 0x20, 0xFC, 0x00, 0xDE]).unwrap()),
        ),
    ];
    for frame in frames {
        let wire = wire_bytes(&frame);
        for i in 1..wire.len() - 1 {
            for bit in 0..8 {
                let mut damaged = wire.clone();
                damaged[i] ^= 1 << bit;
                if damaged[i] == SOF {
                    continue;
                }
                let mut rx_buf = [0u8; 64];
                let mut frame_buf = [0u8; 64];
                let mut parser = FrameParser::new(&mut rx_buf, &mut frame_buf);
                parser.write_data(&damaged).unwrap();
                let first = parser.next_frame();
                assert!(
                    matches!(
                        first,
                        Some(Err(DecodeError::InvalidChecksum))
                            | Some(Err(DecodeError::UnknownFrameType(_)))
                            | Some(Err(DecodeError::InvalidPayloadLength))
                            | Some(Err(DecodeError::InvalidEscapeSequence))
                    ),
                    "byte {} bit {}: {:?}",
                    i,
                    bit,
                    first
                );
                assert_eq!(parser.next_frame(), None);
            }
        }
    }
}

#[test]
fn a_flip_into_a_start_of_frame_starts_a_new_frame() {
    let outer = Frame::new(
        Address::Unicast(0x7D),
        0x00,
        FramePayload::Data(ByteBuf::from_slice(&[0x7E, 0x01, 0x02, 0x00, 0x00, 0x00]).unwrap()),
    );
    let mut wire = wire_bytes(&outer);
    assert_eq!(
        wire,
        [0xFE, 0x7D, 0x00, 0x05, 0x06, 0x00, 0x7E, 0x01, 0x02, 0x00, 0x00, 0x00, 0x03, 0xFF]
    );
    wire[6] ^= 0x80;
    let mut rx_buf = [0u8; 64];
    let mut frame_buf = [0u8; 64];
    let mut parser = FrameParser::new(&mut rx_buf, &mut frame_buf);
    parser.write_data(&wire).unwrap();
    assert_eq!(
        parser.next_frame(),
        Some(Ok(Frame::new(Address::Unicast(0x01), 0x02, FramePayload::Ping)))
    );
    assert_eq!(parser.next_frame(), None);
}
