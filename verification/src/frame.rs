//! Frames and their wire format.
//!
//! On the wire a frame is `SOF | stuffed(H ‖ P ‖ C) | EOF`: a five-byte header
//! `H`, the payload `P` and a one-byte xor checksum `C`, byte-stuffed and placed
//! between the two delimiters. The spec functions of [`FrameView`] define that
//! image; [`Frame::encode`] and [`Frame::decode`] are proved against them.
use vstd::prelude::*;
use vstd::slice::slice_subrange;

use crate::buffer::ByteBuf;
use crate::error::{DecodeError, EncodeError};
use crate::wire::{
    lemma_overlay_append, lemma_stuff_append, lemma_stuff_len, lemma_xor_checksum_append, overlay,
    put_byte, put_stuffed, stuff, u32_from_le, u32_from_le_bytes, u32_le_bytes, u32_to_le,
    xor_checksum,
};
use crate::{EOF, MAX_PAYLOAD_SIZE, SOF};

verus! {

/// Destination of a frame: one node, or every node on the bus.
#[derive(Debug, Clone, Copy, PartialEq, Eq, Structural)]
pub enum Address {
    Unicast(u8),
    Broadcast,
}

impl Address {
    /// The byte that stands for the address on the wire.
    pub open spec fn wire_byte(self) -> u8 {
        match self {
            Address::Unicast(addr) => addr,
            Address::Broadcast => 0xFF,
        }
    }

    /// The address that a wire byte stands for.
    pub open spec fn of_wire_byte(byte: u8) -> Address {
        if byte == 0xFF {
            Address::Broadcast
        } else {
            Address::Unicast(byte)
        }
    }

    pub fn as_byte(&self) -> (byte: u8)
        ensures
            byte == self.wire_byte(),
    {
        match self {
            Address::Unicast(addr) => *addr,
            Address::Broadcast => 0xFF,
        }
    }

    pub fn from_byte(byte: u8) -> (address: Address)
        ensures
            address == Address::of_wire_byte(byte),
    {
        if byte == 0xFF {
            Address::Broadcast
        } else {
            Address::Unicast(byte)
        }
    }
}

/// The type id carried in the third header byte.
#[derive(Debug, Clone, Copy, PartialEq, Eq, Structural)]
pub enum FrameType {
    Ping,
    Pong,
    Ack,
    Join,
    SetAddress,
    Data,
    SetCommand,
}

impl FrameType {
    /// The id of the type on the wire.
    pub open spec fn id(self) -> u8 {
        match self {
            FrameType::Ping => 0,
            FrameType::Pong => 1,
            FrameType::Ack => 2,
            FrameType::Join => 3,
            FrameType::SetAddress => 4,
            FrameType::Data => 5,
            FrameType::SetCommand => 6,
        }
    }

    /// The type with the given id, if the id is defined.
    pub open spec fn of_id(byte: u8) -> Option<FrameType> {
        if byte == 0 {
            Some(FrameType::Ping)
        } else if byte == 1 {
            Some(FrameType::Pong)
        } else if byte == 2 {
            Some(FrameType::Ack)
        } else if byte == 3 {
            Some(FrameType::Join)
        } else if byte == 4 {
            Some(FrameType::SetAddress)
        } else if byte == 5 {
            Some(FrameType::Data)
        } else if byte == 6 {
            Some(FrameType::SetCommand)
        } else {
            None
        }
    }

    pub fn as_byte(&self) -> (byte: u8)
        ensures
            byte == self.id(),
    {
        match self {
            FrameType::Ping => 0,
            FrameType::Pong => 1,
            FrameType::Ack => 2,
            FrameType::Join => 3,
            FrameType::SetAddress => 4,
            FrameType::Data => 5,
            FrameType::SetCommand => 6,
        }
    }

    /// Reads a type id; an undefined id is an error that carries the id.
    pub fn from_byte(byte: u8) -> (r: Result<FrameType, DecodeError>)
        ensures
            r == (match FrameType::of_id(byte) {
                Some(t) => Ok::<FrameType, DecodeError>(t),
                None => Err::<FrameType, DecodeError>(DecodeError::UnknownFrameType(byte)),
            }),
    {
        match byte {
            0 => Ok(FrameType::Ping),
            1 => Ok(FrameType::Pong),
            2 => Ok(FrameType::Ack),
            3 => Ok(FrameType::Join),
            4 => Ok(FrameType::SetAddress),
            5 => Ok(FrameType::Data),
            6 => Ok(FrameType::SetCommand),
            _ => Err(DecodeError::UnknownFrameType(byte)),
        }
    }
}

/// The mathematical value of a [`FramePayload`].
pub enum PayloadView {
    Ping,
    Pong,
    Ack(u8),
    Join(u32),
    SetAddress { address: u8, id: u32 },
    Data(Seq<u8>),
    SetCommand(Seq<u8>),
}

impl PayloadView {
    pub open spec fn frame_type(self) -> FrameType {
        match self {
            PayloadView::Ping => FrameType::Ping,
            PayloadView::Pong => FrameType::Pong,
            PayloadView::Ack(_) => FrameType::Ack,
            PayloadView::Join(_) => FrameType::Join,
            PayloadView::SetAddress { .. } => FrameType::SetAddress,
            PayloadView::Data(_) => FrameType::Data,
            PayloadView::SetCommand(_) => FrameType::SetCommand,
        }
    }

    /// The payload as it stands on the wire, before stuffing.
    pub open spec fn bytes(self) -> Seq<u8> {
        match self {
            PayloadView::Ping => Seq::empty(),
            PayloadView::Pong => Seq::empty(),
            PayloadView::Ack(address) => seq![address],
            PayloadView::Join(id) => u32_le_bytes(id),
            PayloadView::SetAddress { address, id } => seq![address] + u32_le_bytes(id),
            PayloadView::Data(data) => data,
            PayloadView::SetCommand(command) => command,
        }
    }

    /// Whether the payload is one that a frame on the wire can carry: opaque
    /// data of at most [`MAX_PAYLOAD_SIZE`] bytes, a command of at least one
    /// and at most [`MAX_PAYLOAD_SIZE`] bytes.
    pub open spec fn valid(self) -> bool {
        match self {
            PayloadView::Data(data) => data.len() <= MAX_PAYLOAD_SIZE,
            PayloadView::SetCommand(command) => 1 <= command.len() <= MAX_PAYLOAD_SIZE,
            _ => true,
        }
    }
}

/// The payload that the bytes `s` stand for in a frame of the given type, or
/// the error when their number is not one that the type allows.
pub open spec fn decode_payload(frame_type: FrameType, s: Seq<u8>) -> Result<
    PayloadView,
    DecodeError,
> {
    match frame_type {
        FrameType::Ping => if s.len() == 0 {
            Ok(PayloadView::Ping)
        } else {
            Err(DecodeError::InvalidPayloadLength)
        },
        FrameType::Pong => if s.len() == 0 {
            Ok(PayloadView::Pong)
        } else {
            Err(DecodeError::InvalidPayloadLength)
        },
        FrameType::Ack => if s.len() == 1 {
            Ok(PayloadView::Ack(s[0]))
        } else {
            Err(DecodeError::InvalidPayloadLength)
        },
        FrameType::Join => if s.len() == 4 {
            Ok(PayloadView::Join(u32_from_le_bytes(s[0], s[1], s[2], s[3])))
        } else {
            Err(DecodeError::InvalidPayloadLength)
        },
        FrameType::SetAddress => if s.len() == 5 {
            Ok(
                PayloadView::SetAddress {
                    address: s[0],
                    id: u32_from_le_bytes(s[1], s[2], s[3], s[4]),
                },
            )
        } else {
            Err(DecodeError::InvalidPayloadLength)
        },
        FrameType::Data => if s.len() <= MAX_PAYLOAD_SIZE {
            Ok(PayloadView::Data(s))
        } else {
            Err(DecodeError::InvalidPayloadLength)
        },
        FrameType::SetCommand => if 1 <= s.len() <= MAX_PAYLOAD_SIZE {
            Ok(PayloadView::SetCommand(s))
        } else {
            Err(DecodeError::InvalidPayloadLength)
        },
    }
}

/// The frame that the unstuffed inner bytes `s` stand for, or the first error
/// that the checks find, in this order: the gross size, the checksum, the
/// length field, the type id, the length that the type allows.
pub open spec fn decode_frame(s: Seq<u8>) -> Result<FrameView, DecodeError> {
    if s.len() < Frame::HEADER_LEN + Frame::CHECKSUM_LEN {
        Err(DecodeError::InvalidPayloadLength)
    } else if s.last() != xor_checksum(s.drop_last()) {
        Err(DecodeError::InvalidChecksum)
    } else if s[3] + 256 * s[4] != s.len() - Frame::HEADER_LEN - Frame::CHECKSUM_LEN {
        Err(DecodeError::InvalidPayloadLength)
    } else {
        match FrameType::of_id(s[2]) {
            None => Err(DecodeError::UnknownFrameType(s[2])),
            Some(frame_type) => match decode_payload(
                frame_type,
                s.subrange(Frame::HEADER_LEN as int, s.len() - Frame::CHECKSUM_LEN),
            ) {
                Err(e) => Err(e),
                Ok(payload) => Ok(
                    FrameView {
                        to_address: Address::of_wire_byte(s[0]),
                        from_address: s[1],
                        payload,
                    },
                ),
            },
        }
    }
}

/// What a frame carries; the variant decides the frame type.
#[derive(Debug, Clone, PartialEq, Eq)]
pub enum FramePayload {
    Ping,
    Pong,
    /// The address that is acknowledged.
    Ack(u8),
    /// The hardware id of the client that asks for an address.
    Join(u32),
    /// The address assigned to the client with the given hardware id.
    SetAddress { address: u8, id: u32 },
    /// Opaque application data.
    Data(ByteBuf),
    /// An opaque command, which the receiver acknowledges.
    SetCommand(ByteBuf),
}

impl View for FramePayload {
    type V = PayloadView;

    open spec fn view(&self) -> PayloadView {
        match *self {
            FramePayload::Ping => PayloadView::Ping,
            FramePayload::Pong => PayloadView::Pong,
            FramePayload::Ack(address) => PayloadView::Ack(address),
            FramePayload::Join(id) => PayloadView::Join(id),
            FramePayload::SetAddress { address, id } => PayloadView::SetAddress { address, id },
            FramePayload::Data(data) => PayloadView::Data(data@),
            FramePayload::SetCommand(command) => PayloadView::SetCommand(command@),
        }
    }
}

impl FramePayload {
    pub fn frame_type(&self) -> (t: FrameType)
        ensures
            t == self@.frame_type(),
    {
        match self {
            FramePayload::Ping => FrameType::Ping,
            FramePayload::Pong => FrameType::Pong,
            FramePayload::Ack(_) => FrameType::Ack,
            FramePayload::Join(_) => FrameType::Join,
            FramePayload::SetAddress { .. } => FrameType::SetAddress,
            FramePayload::Data(_) => FrameType::Data,
            FramePayload::SetCommand(_) => FrameType::SetCommand,
        }
    }

    /// The length of the payload on the wire, before stuffing.
    pub fn len(&self) -> (n: u16)
        ensures
            n == self@.bytes().len(),
            n <= MAX_PAYLOAD_SIZE,
    {
        match self {
            FramePayload::Ping | FramePayload::Pong => 0,
            FramePayload::Ack(_) => 1,
            FramePayload::Join(_) => 4,
            FramePayload::SetAddress { .. } => 5,
            FramePayload::Data(data) => data.len() as u16,
            FramePayload::SetCommand(command) => command.len() as u16,
        }
    }

    pub fn is_empty(&self) -> (e: bool)
        ensures
            e <==> self@.bytes().len() == 0,
    {
        self.len() == 0
    }

    /// Reads the payload of a frame of the given type from its bytes.
    pub fn decode(frame_type: FrameType, payload_slice: &[u8]) -> (r: Result<
        FramePayload,
        DecodeError,
    >)
        ensures
            match r {
                Ok(payload) => decode_payload(frame_type, payload_slice@) == Ok::<
                    PayloadView,
                    DecodeError,
                >(payload@),
                Err(e) => decode_payload(frame_type, payload_slice@) == Err::<
                    PayloadView,
                    DecodeError,
                >(e),
            },
    {
        let payload_len: usize = payload_slice.len();
        match frame_type {
            FrameType::Ping => {
                if payload_len != 0 {
                    return Err(DecodeError::InvalidPayloadLength);
                }
                Ok(FramePayload::Ping)
            },
            FrameType::Pong => {
                if payload_len != 0 {
                    return Err(DecodeError::InvalidPayloadLength);
                }
                Ok(FramePayload::Pong)
            },
            FrameType::Ack => {
                if payload_len != 1 {
                    return Err(DecodeError::InvalidPayloadLength);
                }
                Ok(FramePayload::Ack(payload_slice[0]))
            },
            FrameType::Join => {
                if payload_len != 4 {
                    return Err(DecodeError::InvalidPayloadLength);
                }
                Ok(
                    FramePayload::Join(
                        u32_from_le(
                            payload_slice[0],
                            payload_slice[1],
                            payload_slice[2],
                            payload_slice[3],
                        ),
                    ),
                )
            },
            FrameType::SetAddress => {
                if payload_len != 5 {
                    return Err(DecodeError::InvalidPayloadLength);
                }
                Ok(
                    FramePayload::SetAddress {
                        address: payload_slice[0],
                        id: u32_from_le(
                            payload_slice[1],
                            payload_slice[2],
                            payload_slice[3],
                            payload_slice[4],
                        ),
                    },
                )
            },
            FrameType::Data => {
                match ByteBuf::from_slice(payload_slice) {
                    Ok(data) => Ok(FramePayload::Data(data)),
                    Err(_) => Err(DecodeError::InvalidPayloadLength),
                }
            },
            FrameType::SetCommand => {
                if payload_len == 0 {
                    return Err(DecodeError::InvalidPayloadLength);
                }
                match ByteBuf::from_slice(payload_slice) {
                    Ok(command) => Ok(FramePayload::SetCommand(command)),
                    Err(_) => Err(DecodeError::InvalidPayloadLength),
                }
            },
        }
    }

    /// Writes the stuffed payload from `idx` on, as far as the buffer reaches.
    /// Returns the index behind the whole image and the payload's checksum.
    fn put(&self, idx: usize, buf: &mut [u8]) -> (r: (usize, u8))
        requires
            idx <= 16,
        ensures
            r.0 == idx + stuff(self@.bytes()).len(),
            r.1 == xor_checksum(self@.bytes()),
            final(buf)@ == overlay(old(buf)@, idx as int, stuff(self@.bytes())),
    {
        match self {
            FramePayload::Ping | FramePayload::Pong => {
                proof {
                    assert(buf@ =~= overlay(buf@, idx as int, stuff(Seq::<u8>::empty())));
                }
                (idx, 0)
            },
            FramePayload::Ack(address) => {
                let bytes: [u8; 1] = [*address];
                proof {
                    assert(bytes@ =~= self@.bytes());
                }
                (put_stuffed(&bytes, idx, buf), Frame::calculate_xor_checksum(&bytes))
            },
            FramePayload::Join(id) => {
                let bytes: [u8; 4] = u32_to_le(*id);
                (put_stuffed(&bytes, idx, buf), Frame::calculate_xor_checksum(&bytes))
            },
            FramePayload::SetAddress { address, id } => {
                let le: [u8; 4] = u32_to_le(*id);
                let bytes: [u8; 5] = [*address, le[0], le[1], le[2], le[3]];
                proof {
                    assert(bytes@ =~= self@.bytes());
                }
                (put_stuffed(&bytes, idx, buf), Frame::calculate_xor_checksum(&bytes))
            },
            FramePayload::Data(data) => {
                let bytes = data.as_slice();
                (put_stuffed(bytes, idx, buf), Frame::calculate_xor_checksum(bytes))
            },
            FramePayload::SetCommand(command) => {
                let bytes = command.as_slice();
                (put_stuffed(bytes, idx, buf), Frame::calculate_xor_checksum(bytes))
            },
        }
    }
}

/// The mathematical value of a [`Frame`].
pub struct FrameView {
    pub to_address: Address,
    pub from_address: u8,
    pub payload: PayloadView,
}

impl FrameView {
    /// The five header bytes: destination, source, type id, and the payload
    /// length as two bytes, least significant first.
    pub open spec fn header(self) -> Seq<u8> {
        let len = self.payload.bytes().len() as int;
        seq![
            self.to_address.wire_byte(),
            self.from_address,
            self.payload.frame_type().id(),
            (len % 256) as u8,
            (len / 256 % 256) as u8,
        ]
    }

    /// Header and payload: the bytes that the checksum covers.
    pub open spec fn body(self) -> Seq<u8> {
        self.header() + self.payload.bytes()
    }

    /// The inner bytes `H ‖ P ‖ C` of the frame, before stuffing.
    pub open spec fn inner(self) -> Seq<u8> {
        self.body().push(xor_checksum(self.body()))
    }

    /// The frame as it travels on the wire.
    pub open spec fn wire(self) -> Seq<u8> {
        seq![SOF] + stuff(self.inner()) + seq![EOF]
    }

    /// Whether this is a frame that the wire format can carry and give back:
    /// the payload is valid, and a unicast destination is not the byte that
    /// stands for broadcast.
    pub open spec fn valid(self) -> bool {
        &&& self.payload.valid()
        &&& self.to_address != Address::Unicast(0xFF)
    }
}

/// A logical frame: destination, source and payload.
#[derive(Debug, Clone, PartialEq, Eq)]
pub struct Frame {
    to_address: Address,
    from_address: u8,
    payload: FramePayload,
}

impl View for Frame {
    type V = FrameView;

    closed spec fn view(&self) -> FrameView {
        FrameView {
            to_address: self.to_address,
            from_address: self.from_address,
            payload: self.payload@,
        }
    }
}

impl Frame {
    /// Length of the frame header in bytes.
    pub const HEADER_LEN: usize = 5;

    /// Length of the checksum in bytes.
    pub const CHECKSUM_LEN: usize = 1;

    pub fn new(to: Address, from: u8, payload: FramePayload) -> (frame: Frame)
        ensures
            frame@ == (FrameView { to_address: to, from_address: from, payload: payload@ }),
    {
        Frame { to_address: to, from_address: from, payload }
    }

    pub fn to_address(&self) -> (to: Address)
        ensures
            to == self@.to_address,
    {
        self.to_address
    }

    pub fn from_address(&self) -> (from: u8)
        ensures
            from == self@.from_address,
    {
        self.from_address
    }

    pub fn payload(&self) -> (payload: &FramePayload)
        ensures
            payload@ == self@.payload,
    {
        &self.payload
    }

    /// Mutable access to the payload; destination and source stay as they are.
    pub fn payload_mut(&mut self) -> (payload: &mut FramePayload)
        ensures
            payload@ == old(self)@.payload,
            final(self)@ == (FrameView { payload: final(payload)@, ..old(self)@ }),
    {
        &mut self.payload
    }

    pub fn into_payload(self) -> (payload: FramePayload)
        ensures
            payload@ == self@.payload,
    {
        self.payload
    }

    /// The number of inner bytes: header, payload and checksum.
    pub fn encoded_len(&self) -> (n: usize)
        ensures
            n == self@.inner().len(),
            n == Frame::HEADER_LEN + self@.payload.bytes().len() + Frame::CHECKSUM_LEN,
    {
        Frame::HEADER_LEN + self.payload.len() as usize + Frame::CHECKSUM_LEN
    }

    /// The xor of all bytes of `data`.
    pub fn calculate_xor_checksum(data: &[u8]) -> (checksum: u8)
        ensures
            checksum == xor_checksum(data@),
    {
        let mut checksum: u8 = 0;
        let mut i: usize = 0;
        while i < data.len()
            invariant
                i <= data@.len(),
                checksum == xor_checksum(data@.subrange(0, i as int)),
            decreases data@.len() - i,
        {
            proof {
                let next = data@.subrange(0, i + 1);
                assert(next.drop_last() == data@.subrange(0, i as int));
                assert(next.last() == data@[i as int]);
            }
            checksum = checksum ^ data[i];
            i += 1;
        }
        proof {
            assert(data@.subrange(0, i as int) == data@);
        }
        checksum
    }

    /// Writes the frame to the front of `buffer` as it travels on the wire and
    /// returns the number of bytes written. When the buffer is too small for
    /// the whole frame, it is filled with the part of the frame that fits.
    pub fn encode(&self, buffer: &mut [u8]) -> (r: Result<usize, EncodeError>)
        ensures
            final(buffer)@.len() == old(buffer)@.len(),
            r is Ok <==> self@.wire().len() <= old(buffer)@.len(),
            r matches Ok(n) ==> {
                &&& n == self@.wire().len()
                &&& final(buffer)@.subrange(0, n as int) == self@.wire()
                &&& final(buffer)@.subrange(n as int, old(buffer)@.len() as int) == old(
                    buffer,
                )@.subrange(n as int, old(buffer)@.len() as int)
            },
            r matches Err(e) ==> {
                &&& e == EncodeError::BufferTooSmall
                &&& final(buffer)@ == self@.wire().subrange(0, old(buffer)@.len() as int)
            },
    {
        let payload_len: u16 = self.payload.len();
        let header: [u8; 5] = [
            self.to_address.as_byte(),
            self.from_address,
            self.payload.frame_type().as_byte(),
            (payload_len % 256) as u8,
            (payload_len / 256) as u8,
        ];
        let ghost start = buffer@;
        let ghost h = self@.header();
        let ghost p = self@.payload.bytes();
        let ghost c = xor_checksum(self@.body());
        proof {
            assert(header@ =~= h);
            lemma_stuff_len(h);
            lemma_stuff_len(p);
            lemma_stuff_len(seq![c]);
        }
        let mut idx: usize = put_byte(SOF, 0, buffer);
        idx = put_stuffed(&header, idx, buffer);
        let header_sum: u8 = Frame::calculate_xor_checksum(&header);
        let (next, payload_sum) = self.payload.put(idx, buffer);
        idx = next;
        let checksum: u8 = header_sum ^ payload_sum;
        let tail: [u8; 1] = [checksum];
        proof {
            lemma_xor_checksum_append(h, p);
            assert(tail@ =~= seq![c]);
        }
        idx = put_stuffed(&tail, idx, buffer);
        idx = put_byte(EOF, idx, buffer);
        proof {
            let sof = seq![SOF];
            let sh = stuff(h);
            let sp = stuff(p);
            let sc = stuff(seq![c]);
            lemma_overlay_append(start, 0, sof, sh);
            lemma_overlay_append(start, 0, sof + sh, sp);
            lemma_overlay_append(start, 0, sof + sh + sp, sc);
            lemma_overlay_append(start, 0, sof + sh + sp + sc, seq![EOF]);
            lemma_stuff_append(h, p);
            lemma_stuff_append(h + p, seq![c]);
            assert(self@.inner() == (h + p) + seq![c]);
            assert(sof + sh + sp + sc + seq![EOF] =~= self@.wire());
            assert(buffer@ == overlay(start, 0, self@.wire()));
            assert(idx == self@.wire().len());
        }
        if idx > buffer.len() {
            proof {
                assert(buffer@ =~= self@.wire().subrange(0, start.len() as int));
            }
            Err(EncodeError::BufferTooSmall)
        } else {
            proof {
                assert(buffer@.subrange(0, idx as int) =~= self@.wire());
                assert(buffer@.subrange(idx as int, start.len() as int) =~= start.subrange(
                    idx as int,
                    start.len() as int,
                ));
            }
            Ok(idx)
        }
    }

    /// Reads a frame from its unstuffed inner bytes `H ‖ P ‖ C`.
    pub fn decode(buffer: &[u8]) -> (r: Result<Frame, DecodeError>)
        ensures
            match r {
                Ok(frame) => decode_frame(buffer@) == Ok::<FrameView, DecodeError>(frame@),
                Err(e) => decode_frame(buffer@) == Err::<FrameView, DecodeError>(e),
            },
    {
        let min_len: usize = Frame::HEADER_LEN + Frame::CHECKSUM_LEN;
        if buffer.len() < min_len {
            return Err(DecodeError::InvalidPayloadLength);
        }
        let data_len: usize = buffer.len() - Frame::CHECKSUM_LEN;
        let data_slice = slice_subrange(buffer, 0, data_len);
        let checksum_byte: u8 = buffer[data_len];
        proof {
            assert(data_slice@ == buffer@.drop_last());
        }
        let expected_checksum: u8 = Frame::calculate_xor_checksum(data_slice);
        if checksum_byte != expected_checksum {
            return Err(DecodeError::InvalidChecksum);
        }
        let to_address = Address::from_byte(buffer[0]);
        let from_address: u8 = buffer[1];
        let frame_type_byte: u8 = buffer[2];
        let payload_len: usize = buffer[3] as usize + 256 * (buffer[4] as usize);
        let actual_payload_len: usize = data_len - Frame::HEADER_LEN;
        if payload_len != actual_payload_len {
            return Err(DecodeError::InvalidPayloadLength);
        }
        let frame_type = match FrameType::from_byte(frame_type_byte) {
            Ok(frame_type) => frame_type,
            Err(e) => {
                return Err(e);
            },
        };
        let payload_slice = slice_subrange(buffer, Frame::HEADER_LEN, data_len);
        let payload = match FramePayload::decode(frame_type, payload_slice) {
            Ok(payload) => payload,
            Err(e) => {
                return Err(e);
            },
        };
        Ok(Frame { to_address, from_address, payload })
    }
}

} // verus!
