//! Error types of the codec, the parser and the node engine.
use vstd::prelude::*;

use crate::frame::FrameType;

verus! {

/// Failure to serialise a frame.
#[derive(Debug, Clone, Copy, PartialEq, Eq, Structural)]
pub enum EncodeError {
    /// The output buffer cannot hold the encoded frame.
    BufferTooSmall,
}

/// Failure to recover a frame from received bytes.
#[derive(Debug, Clone, Copy, PartialEq, Eq, Structural)]
pub enum DecodeError {
    /// The trailing checksum differs from the xor of header and payload.
    InvalidChecksum,
    /// The frame type id is not one of the defined types.
    UnknownFrameType(u8),
    /// The frame is too short, its length field disagrees with the observed
    /// payload, or the payload length is not one its frame type allows.
    InvalidPayloadLength,
    /// A buffer is too small: the unstuffed frame does not fit the frame
    /// buffer, or new data does not fit the receive buffer.
    FrameBufferTooSmall,
    /// An escape marker is followed by an escape marker or by the end of frame.
    InvalidEscapeSequence,
}

/// A well-formed frame that the receiving node cannot accept in its role or
/// state.
#[derive(Debug, Clone, Copy, PartialEq, Eq, Structural)]
pub enum ProtocolError {
    /// An acknowledgement arrived while no command was awaiting one.
    UnexpectedAck,
    /// The frame type is not valid for this node's role or state.
    InvalidFrameType(FrameType),
    /// The client has not started joining yet.
    NodeNotReady,
}

/// Any error that a tick of the node engine can surface.
#[derive(Debug, Clone, Copy, PartialEq, Eq, Structural)]
pub enum ImcpError {
    ProtocolError(ProtocolError),
    DecodeError(DecodeError),
    EncodeError(EncodeError),
}

} // verus!
