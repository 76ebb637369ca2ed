//! The logic of the command-line tool: packing a frame, given by its fields,
//! into hexadecimal text, and unpacking received bytes into frames.
//!
//! Text is converted with the `hex` crate. The two functions that call it
//! state what its source does, over [`hex_text_bytes`] and [`upper_hex`].
use vstd::prelude::*;
use vstd::slice::slice_subrange;
use vstd::string::*;

use crate::buffer::ByteBuf;
use crate::error::{DecodeError, EncodeError};
use crate::frame::{Address, Frame, FramePayload, FrameView, PayloadView};
use crate::parser::{results_view, scan, scan_all, FrameParser, ScanState};
use crate::parser_proofs::lemma_scan_progress;

verus! {

#[verifier::external_type_specification]
#[verifier::external_body]
pub struct ExFromHexError(hex::FromHexError);

/// The value of a hexadecimal digit, upper or lower case, given as its ASCII
/// code.
pub open spec fn hex_digit(c: u8) -> Option<u8> {
    if 0x30 <= c <= 0x39 {
        Some((c - 0x30) as u8)
    } else if 0x41 <= c <= 0x46 {
        Some((c - 0x41 + 10) as u8)
    } else if 0x61 <= c <= 0x66 {
        Some((c - 0x61 + 10) as u8)
    } else {
        None
    }
}

/// Whether `text` is hexadecimal text: an even number of hexadecimal digits.
pub open spec fn is_hex_text(text: Seq<u8>) -> bool {
    &&& text.len() % 2 == 0
    &&& forall|i: int| 0 <= i < text.len() ==> (#[trigger] hex_digit(text[i])) is Some
}

/// The bytes that hexadecimal text stands for: one byte for each pair of
/// digits, the first digit of a pair being the upper half of the byte.
pub open spec fn hex_text_bytes(text: Seq<u8>) -> Seq<u8> {
    Seq::new(
        text.len() / 2,
        |i: int| (16 * hex_digit(text[2 * i]).unwrap() + hex_digit(text[2 * i + 1]).unwrap()) as u8,
    )
}

/// The upper-case hexadecimal digit for a value below sixteen.
pub open spec fn upper_hex_digit(n: int) -> char {
    seq!['0', '1', '2', '3', '4', '5', '6', '7', '8', '9', 'A', 'B', 'C', 'D', 'E', 'F'][n]
}

/// Bytes as upper-case hexadecimal text: two digits for each byte, the upper
/// half first.
pub open spec fn upper_hex(bytes: Seq<u8>) -> Seq<char> {
    Seq::new(
        2 * bytes.len(),
        |i: int|
            if i % 2 == 0 {
                upper_hex_digit((bytes[i / 2] / 16) as int)
            } else {
                upper_hex_digit((bytes[i / 2] % 16) as int)
            },
    )
}

/// `hex::decode`: fails on an odd number of input bytes and on a byte that is
/// not the ASCII code of a hexadecimal digit; otherwise returns one byte for
/// each pair of digits, `16 * first + second`.
#[verifier::external_body]
fn hex_decode(text: &[u8]) -> (r: Result<Vec<u8>, hex::FromHexError>)
    ensures
        r is Ok <==> is_hex_text(text@),
        r matches Ok(bytes) ==> bytes@ == hex_text_bytes(text@),
{
    hex::decode(text)
}

/// `hex::encode_upper`: for each byte in order, the digit of its upper four
/// bits and then the digit of its lower four bits, taken from
/// `0123456789ABCDEF`.
#[verifier::external_body]
fn hex_encode_upper(bytes: &[u8]) -> (text: String)
    ensures
        text@ == upper_hex(bytes@),
{
    hex::encode_upper(bytes)
}

/// Reads hexadecimal text; `None` when `text` is not hexadecimal text.
pub fn parse_hex(text: &str) -> (r: Option<Vec<u8>>)
    ensures
        r is Some <==> is_hex_text(text.spec_bytes()),
        r matches Some(bytes) ==> bytes@ == hex_text_bytes(text.spec_bytes()),
{
    match hex_decode(text.as_bytes()) {
        Ok(bytes) => Some(bytes),
        Err(_) => None,
    }
}

/// The frame type named on the command line.
#[derive(Debug, Clone, Copy, PartialEq, Eq, Structural)]
pub enum PacketType {
    Ping,
    Pong,
    Ack,
    Join,
    SetAddress,
    Data,
    SetCommand,
}

/// The options of the `pack` command.
#[derive(Debug, Clone, PartialEq, Eq)]
pub struct PackArgs {
    pub from: u8,
    pub to: Option<u8>,
    pub broadcast: bool,
    pub packet_type: PacketType,
    pub id: Option<u32>,
    pub address: Option<u8>,
    /// The payload of a data or command frame, as hexadecimal text.
    pub data: Option<String>,
}

/// Why a frame cannot be packed.
#[derive(Debug, Clone, Copy, PartialEq, Eq, Structural)]
pub enum PackError {
    /// Neither a destination nor broadcast was given.
    MissingTo,
    /// The frame type needs an address, and none was given.
    MissingAddress,
    /// The frame type needs a hardware id, and none was given.
    MissingId,
    /// The frame type needs payload data, and none was given.
    MissingData,
    /// The payload data is not hexadecimal text.
    InvalidHex,
    /// The payload data is longer than a payload can be.
    DataTooLong,
    /// The encoded frame is longer than the tool's output buffer.
    Encode(EncodeError),
}

/// The size of the buffer that `pack` encodes into.
pub const PACK_BUFFER_SIZE: usize = 128;

/// The payload bytes that the `data` option stands for.
pub open spec fn data_bytes(data: Option<String>) -> Result<Seq<u8>, PackError> {
    match data {
        None => Err(PackError::MissingData),
        Some(text) => {
            let raw = text@;
            if !is_hex_text(vstd::utf8::encode_utf8(raw)) {
                Err(PackError::InvalidHex)
            } else if hex_text_bytes(vstd::utf8::encode_utf8(raw)).len()
                > crate::MAX_PAYLOAD_SIZE {
                Err(PackError::DataTooLong)
            } else {
                Ok(hex_text_bytes(vstd::utf8::encode_utf8(raw)))
            }
        },
    }
}

/// The payload that the options describe, or the first thing that is missing
/// or wrong.
pub open spec fn pack_payload(args: PackArgs) -> Result<PayloadView, PackError> {
    match args.packet_type {
        PacketType::Ping => Ok(PayloadView::Ping),
        PacketType::Pong => Ok(PayloadView::Pong),
        PacketType::Ack => match args.address {
            Some(address) => Ok(PayloadView::Ack(address)),
            None => Err(PackError::MissingAddress),
        },
        PacketType::Join => match args.id {
            Some(id) => Ok(PayloadView::Join(id)),
            None => Err(PackError::MissingId),
        },
        PacketType::SetAddress => match (args.address, args.id) {
            (None, _) => Err(PackError::MissingAddress),
            (Some(_), None) => Err(PackError::MissingId),
            (Some(address), Some(id)) => Ok(PayloadView::SetAddress { address, id }),
        },
        PacketType::Data => match data_bytes(args.data) {
            Ok(bytes) => Ok(PayloadView::Data(bytes)),
            Err(e) => Err(e),
        },
        PacketType::SetCommand => match data_bytes(args.data) {
            Ok(bytes) => Ok(PayloadView::SetCommand(bytes)),
            Err(e) => Err(e),
        },
    }
}

/// The frame that the options describe. The destination is looked at before
/// the payload.
pub open spec fn pack_frame(args: PackArgs) -> Result<FrameView, PackError> {
    if !args.broadcast && args.to is None {
        Err(PackError::MissingTo)
    } else {
        match pack_payload(args) {
            Err(e) => Err(e),
            Ok(payload) => Ok(
                FrameView {
                    to_address: if args.broadcast {
                        Address::Broadcast
                    } else {
                        Address::Unicast(args.to.unwrap())
                    },
                    from_address: args.from,
                    payload,
                },
            ),
        }
    }
}

/// What `pack` prints: the wire image of the frame as upper-case hexadecimal
/// text, if the frame can be built and its wire image fits the buffer.
pub open spec fn pack_text(args: PackArgs) -> Result<Seq<char>, PackError> {
    match pack_frame(args) {
        Err(e) => Err(e),
        Ok(frame) => if frame.wire().len() <= PACK_BUFFER_SIZE {
            Ok(upper_hex(frame.wire()))
        } else {
            Err(PackError::Encode(EncodeError::BufferTooSmall))
        },
    }
}

fn read_data(data: &Option<String>) -> (r: Result<ByteBuf, PackError>)
    ensures
        match r {
            Ok(bytes) => data_bytes(*data) == Ok::<Seq<u8>, PackError>(bytes@),
            Err(e) => data_bytes(*data) == Err::<Seq<u8>, PackError>(e),
        },
{
    match data {
        None => Err(PackError::MissingData),
        Some(text) => match parse_hex(text.as_str()) {
            None => Err(PackError::InvalidHex),
            Some(bytes) => match ByteBuf::from_slice(bytes.as_slice()) {
                Ok(payload) => Ok(payload),
                Err(_) => Err(PackError::DataTooLong),
            },
        },
    }
}

/// Builds the frame that the options describe and returns its wire image as
/// upper-case hexadecimal text.
pub fn pack(args: &PackArgs) -> (r: Result<String, PackError>)
    ensures
        match r {
            Ok(text) => pack_text(*args) == Ok::<Seq<char>, PackError>(text@),
            Err(e) => pack_text(*args) == Err::<Seq<char>, PackError>(e),
        },
{
    let to_address = if args.broadcast {
        Address::Broadcast
    } else {
        match args.to {
            Some(to) => Address::Unicast(to),
            None => {
                return Err(PackError::MissingTo);
            },
        }
    };
    let frame_payload = match args.packet_type {
        PacketType::Ping => FramePayload::Ping,
        PacketType::Pong => FramePayload::Pong,
        PacketType::Ack => match args.address {
            Some(address) => FramePayload::Ack(address),
            None => {
                return Err(PackError::MissingAddress);
            },
        },
        PacketType::Join => match args.id {
            Some(id) => FramePayload::Join(id),
            None => {
                return Err(PackError::MissingId);
            },
        },
        PacketType::SetAddress => {
            let address = match args.address {
                Some(address) => address,
                None => {
                    return Err(PackError::MissingAddress);
                },
            };
            match args.id {
                Some(id) => FramePayload::SetAddress { address, id },
                None => {
                    return Err(PackError::MissingId);
                },
            }
        },
        PacketType::Data => match read_data(&args.data) {
            Ok(bytes) => FramePayload::Data(bytes),
            Err(e) => {
                return Err(e);
            },
        },
        PacketType::SetCommand => match read_data(&args.data) {
            Ok(bytes) => FramePayload::SetCommand(bytes),
            Err(e) => {
                return Err(e);
            },
        },
    };
    let frame = Frame::new(to_address, args.from, frame_payload);
    let mut buf = [0u8; PACK_BUFFER_SIZE];
    let size: usize = match frame.encode(&mut buf) {
        Ok(size) => size,
        Err(e) => {
            return Err(PackError::Encode(e));
        },
    };
    Ok(hex_encode_upper(slice_subrange(&buf, 0, size)))
}

/// Writes received bytes to the parser and takes out every result that they
/// complete, in order. Nothing is done for no bytes. Fails, with the parser
/// as it was, when the bytes do not fit the receive buffer.
pub fn handle_line(bytes: &[u8], frame_parser: &mut FrameParser) -> (r: Result<
    Vec<Result<Frame, DecodeError>>,
    DecodeError,
>)
    ensures
        final(frame_parser).rx_capacity() == old(frame_parser).rx_capacity(),
        final(frame_parser).frame_capacity() == old(frame_parser).frame_capacity(),
        if bytes@.len() == 0 {
            &&& r matches Ok(results)
            &&& results@.len() == 0
            &&& final(frame_parser)@ == old(frame_parser)@
        } else if !old(frame_parser)@.fits(bytes@, old(frame_parser).rx_capacity()) {
            &&& r == Err::<Vec<Result<Frame, DecodeError>>, DecodeError>(
                DecodeError::FrameBufferTooSmall,
            )
            &&& final(frame_parser)@ == old(frame_parser)@
        } else {
            &&& r matches Ok(results)
            &&& (final(frame_parser)@.state, results_view(results@)) == scan_all(
                old(frame_parser)@.state,
                old(frame_parser)@.pending + bytes@,
                old(frame_parser).frame_capacity(),
            )
            &&& final(frame_parser)@.pending == Seq::<u8>::empty()
        },
{
    let mut results: Vec<Result<Frame, DecodeError>> = Vec::new();
    if bytes.len() == 0 {
        return Ok(results);
    }
    match frame_parser.write_data(bytes) {
        Ok(_) => {},
        Err(e) => {
            return Err(e);
        },
    }
    let ghost capacity = frame_parser.frame_capacity();
    let ghost goal = scan_all(frame_parser@.state, frame_parser@.pending, capacity);
    let mut done: bool = false;
    proof {
        assert(results_view(results@) + goal.1 =~= goal.1);
    }
    while !done
        invariant
            frame_parser.rx_capacity() == old(frame_parser).rx_capacity(),
            frame_parser.frame_capacity() == capacity,
            capacity == old(frame_parser).frame_capacity(),
            goal == (
                scan_all(frame_parser@.state, frame_parser@.pending, capacity).0,
                results_view(results@) + scan_all(
                    frame_parser@.state,
                    frame_parser@.pending,
                    capacity,
                ).1,
            ),
            done ==> frame_parser@.pending.len() == 0,
        decreases
                (if done {
                    0
                } else {
                    frame_parser@.pending.len() + 1
                }),
    {
        let ghost state = frame_parser@.state;
        let ghost pending = frame_parser@.pending;
        let ghost before = results@;
        proof {
            lemma_scan_progress(state, pending, capacity);
            lemma_scan_quiet_or_output(state, pending, capacity);
        }
        match frame_parser.next_frame() {
            Some(result) => {
                results.push(result);
                proof {
                    let tail = scan_all(frame_parser@.state, frame_parser@.pending, capacity).1;
                    let head = scan(state, pending, capacity).2.unwrap();
                    assert(results_view(results@) =~= results_view(before).push(head));
                    assert(results_view(before) + (seq![head] + tail) =~= results_view(results@)
                        + tail);
                }
            },
            None => {
                done = true;
            },
        }
    }
    proof {
        assert(results_view(results@) + Seq::<Result<FrameView, DecodeError>>::empty()
            =~= results_view(results@));
    }
    Ok(results)
}

/// A scan that hands out nothing leaves nothing to scan.
proof fn lemma_scan_quiet_or_output(state: ScanState, input: Seq<u8>, capacity: nat)
    ensures
        scan(state, input, capacity).2 is None ==> scan(state, input, capacity).1.len() == 0,
{
    if scan(state, input, capacity).2 is None {
        crate::parser_proofs::lemma_scan_quiet(state, input, capacity);
    }
}

} // verus!
