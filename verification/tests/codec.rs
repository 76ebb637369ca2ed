use imcp::buffer::ByteBuf;
use imcp::error::{DecodeError, EncodeError};
use imcp::frame::{Address, Frame, FramePayload, FrameType};
use imcp::{EOF, ESC, ESC_XOR, SOF};

#[test]
fn test_checksum_calculation() {
    assert_eq!(Frame::calculate_xor_checksum(&[0x01, 0x02, 0x03]), 0x00);
    assert_eq!(Frame::calculate_xor_checksum(&[0xFF, 0x01]), 0xFE);
    assert_eq!(Frame::calculate_xor_checksum(&[]), 0x00);
}

#[test]
fn test_encode_buffer_too_small() {
    let data: &[u8] = &[0x01, 0x02];
    let payload = FramePayload::Data(ByteBuf::from_slice(data).unwrap());
    let frame = Frame::new(Address::Unicast(0x01), 0x02, payload);

    let mut buffer = [0u8; 7];
    let result = frame.encode(&mut buffer);

    assert_eq!(result, Err(EncodeError::BufferTooSmall));
}

#[test]
fn test_encode_stuffed_ping() {
    let frame = Frame::new(Address::Unicast(0x01), 0x02, FramePayload::Ping);
    let mut buffer = [0u8; 32];
    let len = frame.encode(&mut buffer).unwrap();

    let expected: &[u8] = &[0xFE, 0x01, 0x02, 0x00, 0x00, 0x00, 0x03, 0xFF];
    assert_eq!(len, expected.len());
    assert_eq!(&buffer[..len], expected);
}

#[test]
fn test_encode_with_stuffing() {
    let data: &[u8] = &[0x01, SOF, 0x03];
    let frame = Frame::new(
        Address::Unicast(0x01),
        0x02,
        FramePayload::Data(ByteBuf::from_slice(data).unwrap()),
    );

    let expected: &[u8] = &[
        SOF,
        0x01,
        0x02,
        0x05,
        0x03,
        0x00,
        0x01,
        ESC,
        SOF ^ ESC_XOR,
        0x03,
        0xF9,
        EOF,
    ];

    let mut buffer = [0u8; 32];
    let len = frame.encode(&mut buffer).unwrap();

    assert_eq!(len, expected.len());
    assert_eq!(&buffer[..len], expected);
}

#[test]
fn test_decode_pure_frame() {
    let buffer: &[u8] = &[0x01, 0x02, 0x00, 0x00, 0x00, 0x03];
    let frame = Frame::decode(buffer).unwrap();
    assert_eq!(frame.payload(), &FramePayload::Ping);
}

#[test]
fn test_decode_error_bad_checksum_pure() {
    let buffer: &[u8] = &[0x01, 0x02, 0x00, 0x00, 0x00, 0xFF];
    let res = Frame::decode(buffer);
    assert_eq!(res, Err(DecodeError::InvalidChecksum));
}

#[test]
fn frame_type_ids() {
    assert_eq!(FrameType::from_byte(4), Ok(FrameType::SetAddress));
    assert_eq!(FrameType::from_byte(7), Err(DecodeError::UnknownFrameType(7)));
}

fn inner_bytes(frame: &Frame) -> Vec<u8> {
    let mut wire = [0u8; 160];
    let len = frame.encode(&mut wire).unwrap();
    let mut inner = Vec::new();
    let mut i = 1;
    while i < len - 1 {
        if wire[i] == ESC {
            inner.push(wire[i + 1] ^ ESC_XOR);
            i += 2;
        } else {
            inner.push(wire[i]);
            i += 1;
        }
    }
    inner
}

fn sample_frames() -> Vec<Frame> {
    vec![
        Frame::new(Address::Unicast(0x01), 0x02, FramePayload::Ping),
        Frame::new(Address::Broadcast, 0xFE, FramePayload::Pong),
        Frame::new(Address::Unicast(0xFD), 0xFF, FramePayload::Ack(0xFF)),
        Frame::new(Address::Unicast(0x00), 0x01, FramePayload::Join(0xFFFE_FD00)),
        Frame::new(
            Address::Unicast(0x00),
            0x01,
            FramePayload::SetAddress { address: 0xFE, id: 0x1234_5678 },
        ),
        Frame::new(
            Address::Broadcast,
            0x42,
            FramePayload::Data(ByteBuf::from_slice(&[]).unwrap()),
        ),
        Frame::new(
            Address::Broadcast,
            0x42,
            FramePayload::Data(ByteBuf::from_slice(&[0xFF; 64]).unwrap()),
        ),
        Frame::new(
            Address::Unicast(0x09),
            0x01,
            FramePayload::SetCommand(ByteBuf::from_slice(&[0xFD, 0xFE, 0xFF, 0x20]).unwrap()),
        ),
    ]
}

#[test]
fn decode_gives_back_what_encode_was_given() {
    for frame in sample_frames() {
        let inner = inner_bytes(&frame);
        assert_eq!(inner.len(), frame.encoded_len());
        assert_eq!(Frame::decode(&inner), Ok(frame));
    }
}

#[test]
fn a_flipped_bit_is_a_checksum_error() {
    for frame in sample_frames() {
        let inner = inner_bytes(&frame);
        for i in 0..inner.len() {
            for bit in 0..8 {
                let mut damaged = inner.clone();
                damaged[i] ^= 1 << bit;
                assert_eq!(Frame::decode(&damaged), Err(DecodeError::InvalidChecksum));
            }
        }
    }
}

#[test]
fn encode_join_and_set_address_payloads() {
    let join = Frame::new(Address::Unicast(0x00), 0x01, FramePayload::Join(0x0403_0201));
    let mut buffer = [0u8; 32];
    let len = join.encode(&mut buffer).unwrap();
    assert_eq!(
        &buffer[..len],
        &[0xFE, 0x00, 0x01, 0x03, 0x04, 0x00, 0x01, 0x02, 0x03, 0x04, 0x02, 0xFF]
    );
    assert_eq!(join.payload().len(), 4);
    assert_eq!(join.encoded_len(), 10);

    let assign = Frame::new(
        Address::Unicast(0x00),
        0x01,
        FramePayload::SetAddress { address: 2, id: 12 },
    );
    let len = assign.encode(&mut buffer).unwrap();
    assert_eq!(
        &buffer[..len],
        &[0xFE, 0x00, 0x01, 0x04, 0x05, 0x00, 0x02, 0x0C, 0x00, 0x00, 0x00, 0x0E, 0xFF]
    );
    assert_eq!(assign.payload().len(), 5);
    assert_eq!(assign.encoded_len(), 11);
}

#[test]
fn encode_ack_and_broadcast() {
    let ack = Frame::new(Address::Unicast(0x02), 0x01, FramePayload::Ack(0xFF));
    let mut buffer = [0xAAu8; 16];
    let len = ack.encode(&mut buffer).unwrap();
    assert_eq!(
        &buffer[..len],
        &[0xFE, 0x02, 0x01, 0x02, 0x01, 0x00, 0xFD, 0xDF, 0xFD, 0xDF, 0xFF]
    );
    assert_eq!(&buffer[len..], &[0xAA; 5]);

    let ping = Frame::new(Address::Broadcast, 0x01, FramePayload::Ping);
    let len = ping.encode(&mut buffer).unwrap();
    assert_eq!(
        &buffer[..len],
        &[0xFE, 0xFD, 0xDF, 0x01, 0x00, 0x00, 0x00, 0xFD, 0xDE, 0xFF]
    );
}

#[test]
fn encode_needs_the_whole_wire_length() {
    let frame = Frame::new(Address::Unicast(0x01), 0x02, FramePayload::Ping);
    let mut exact = [0u8; 8];
    assert_eq!(frame.encode(&mut exact), Ok(8));
    let mut short = [0u8; 7];
    assert_eq!(frame.encode(&mut short), Err(EncodeError::BufferTooSmall));
    assert_eq!(short, [0xFE, 0x01, 0x02, 0x00, 0x00, 0x00, 0x03]);
    let mut none: [u8; 0] = [];
    assert_eq!(frame.encode(&mut none), Err(EncodeError::BufferTooSmall));
}

#[test]
fn decode_checks_in_order() {
    assert_eq!(
        Frame::decode(&[0x01, 0x02, 0x00, 0x00, 0x00]),
        Err(DecodeError::InvalidPayloadLength)
    );
    assert_eq!(Frame::decode(&[]), Err(DecodeError::InvalidPayloadLength));
    // A wrong checksum is found before a wrong length field or type id.
    assert_eq!(
        Frame::decode(&[0x01, 0x02, 0x09, 0x07, 0x00, 0x00]),
        Err(DecodeError::InvalidChecksum)
    );
    // The length field is checked before the type id.
    assert_eq!(
        Frame::decode(&[0x01, 0x02, 0x09, 0x07, 0x00, 0x0D]),
        Err(DecodeError::InvalidPayloadLength)
    );
    assert_eq!(
        Frame::decode(&[0x01, 0x02, 0x09, 0x00, 0x00, 0x0A]),
        Err(DecodeError::UnknownFrameType(9))
    );
    // Ping with one payload byte.
    assert_eq!(
        Frame::decode(&[0x01, 0x02, 0x00, 0x01, 0x00, 0x55, 0x57]),
        Err(DecodeError::InvalidPayloadLength)
    );
    // Ack without its address byte.
    assert_eq!(
        Frame::decode(&[0x01, 0x02, 0x02, 0x00, 0x00, 0x01]),
        Err(DecodeError::InvalidPayloadLength)
    );
    // Join with three bytes, SetAddress with four.
    assert_eq!(
        Frame::decode(&[0x01, 0x02, 0x03, 0x03, 0x00, 0x00, 0x00, 0x00, 0x03]),
        Err(DecodeError::InvalidPayloadLength)
    );
    assert_eq!(
        Frame::decode(&[0x01, 0x02, 0x04, 0x04, 0x00, 0x00, 0x00, 0x00, 0x00, 0x03]),
        Err(DecodeError::InvalidPayloadLength)
    );
    // A command without a byte.
    assert_eq!(
        Frame::decode(&[0x01, 0x02, 0x06, 0x00, 0x00, 0x05]),
        Err(DecodeError::InvalidPayloadLength)
    );
}

#[test]
fn decode_limits_variable_payloads() {
    let mut inner = vec![0x01, 0x02, 0x05, 65, 0x00];
    inner.extend_from_slice(&[0u8; 65]);
    let checksum = Frame::calculate_xor_checksum(&inner);
    inner.push(checksum);
    assert_eq!(Frame::decode(&inner), Err(DecodeError::InvalidPayloadLength));

    let mut inner = vec![0x01, 0x02, 0x05, 64, 0x00];
    inner.extend_from_slice(&[7u8; 64]);
    let checksum = Frame::calculate_xor_checksum(&inner);
    inner.push(checksum);
    let frame = Frame::decode(&inner).unwrap();
    assert_eq!(frame.to_address(), Address::Unicast(0x01));
    assert_eq!(frame.from_address(), 0x02);
    assert_eq!(
        frame.into_payload(),
        FramePayload::Data(ByteBuf::from_slice(&[7u8; 64]).unwrap())
    );
}

#[test]
fn decode_payload_by_type() {
    assert_eq!(
        FramePayload::decode(FrameType::Join, &[0x78, 0x56, 0x34, 0x12]),
        Ok(FramePayload::Join(0x1234_5678))
    );
    assert_eq!(
        FramePayload::decode(FrameType::SetAddress, &[0x09, 0x78, 0x56, 0x34, 0x12]),
        Ok(FramePayload::SetAddress { address: 9, id: 0x1234_5678 })
    );
    assert_eq!(
        FramePayload::decode(FrameType::Ack, &[0xFF]),
        Ok(FramePayload::Ack(0xFF))
    );
    assert_eq!(
        FramePayload::decode(FrameType::SetCommand, &[0x01]),
        Ok(FramePayload::SetCommand(ByteBuf::from_slice(&[0x01]).unwrap()))
    );
    assert_eq!(
        FramePayload::decode(FrameType::Pong, &[0x01]),
        Err(DecodeError::InvalidPayloadLength)
    );
}

#[test]
fn addresses_and_type_ids_on_the_wire() {
    assert_eq!(Address::Unicast(0x07).as_byte(), 0x07);
    assert_eq!(Address::Broadcast.as_byte(), 0xFF);
    assert_eq!(Address::from_byte(0xFF), Address::Broadcast);
    assert_eq!(Address::from_byte(0x00), Address::Unicast(0x00));
    let types = [
        FrameType::Ping,
        FrameType::Pong,
        FrameType::Ack,
        FrameType::Join,
        FrameType::SetAddress,
        FrameType::Data,
        FrameType::SetCommand,
    ];
    for (id, frame_type) in types.iter().enumerate() {
        assert_eq!(frame_type.as_byte(), id as u8);
        assert_eq!(FrameType::from_byte(id as u8), Ok(*frame_type));
    }
}

#[test]
fn payload_lengths_and_types() {
    assert!(FramePayload::Ping.is_empty());
    assert!(FramePayload::Pong.is_empty());
    assert!(!FramePayload::Ack(1).is_empty());
    assert_eq!(FramePayload::Ack(1).len(), 1);
    let data = FramePayload::Data(ByteBuf::from_slice(&[1, 2, 3]).unwrap());
    assert_eq!(data.len(), 3);
    assert_eq!(data.frame_type(), FrameType::Data);
    assert!(FramePayload::Data(ByteBuf::from_slice(&[]).unwrap()).is_empty());
    assert_eq!(FramePayload::Join(1).frame_type(), FrameType::Join);
}

#[test]
fn payload_mut_changes_the_payload_only() {
    let mut frame = Frame::new(Address::Unicast(0x03), 0x04, FramePayload::Ping);
    *frame.payload_mut() = FramePayload::Ack(0x03);
    assert_eq!(
        frame,
        Frame::new(Address::Unicast(0x03), 0x04, FramePayload::Ack(0x03))
    );
}

#[test]
fn byte_buf_holds_up_to_its_capacity() {
    let data: Vec<u8> = (0u8..64).collect();
    let buf = ByteBuf::from_slice(&data).unwrap();
    assert_eq!(buf.as_slice(), &data[..]);
    assert_eq!(buf.len(), 64);
    assert!(!buf.is_empty());
    assert_eq!(buf.clone(), buf);
    assert!(ByteBuf::from_slice(&[0u8; 65]).is_err());
    let empty = ByteBuf::from_slice(&[]).unwrap();
    assert!(empty.is_empty());
    assert_eq!(empty.len(), 0);
}
