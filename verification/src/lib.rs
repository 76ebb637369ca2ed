//! IMCP: a framed, half-duplex messaging protocol for an RS-485 multi-drop bus
//! that connects one master controller to several client panels.
//!
//! The crate holds
//! - the byte-level frame codec ([`frame`], over the building blocks of
//!   [`wire`] and the byte buffer of [`buffer`]),
//! - the streaming frame parser ([`parser`]),
//! - the node engine ([`engine`]): address assignment, command and
//!   acknowledgement, broadcast delivery,
//! - the timing of the half-duplex link ([`link`]) and the logic of the
//!   command-line tool ([`cli`]).
//!
//! Every function states its behaviour as a contract over mathematical models
//! of frames, parser and node, and Verus proves the contract. What holds of
//! the parts as a whole is proved in [`codec_proofs`], [`parser_proofs`],
//! [`damage_proofs`] and [`engine_proofs`].
//!
//! The crate does no input or output: the host hands it bytes and frames and
//! performs what it returns.
use vstd::prelude::*;

pub mod buffer;
pub mod cli;
pub mod codec_proofs;
pub mod damage_proofs;
pub mod engine;
pub mod engine_proofs;
pub mod error;
pub mod frame;
pub mod link;
pub mod parser;
pub mod parser_proofs;
pub mod wire;

pub use crate::engine::{ClientState, Imcp, MasterState, NodeType};

verus! {

/// Start-of-frame delimiter.
pub const SOF: u8 = 0xFE;

/// End-of-frame delimiter.
pub const EOF: u8 = 0xFF;

/// Escape marker that precedes a stuffed byte.
pub const ESC: u8 = 0xFD;

/// Mask that is xor-ed onto a reserved byte when it is stuffed.
pub const ESC_XOR: u8 = 0x20;

/// Largest number of bytes that a variable-length payload, or the encoded
/// output of one write tick, can hold.
pub const MAX_PAYLOAD_SIZE: usize = 64;

} // verus!
