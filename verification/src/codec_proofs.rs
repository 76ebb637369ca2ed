//! What holds of the frame codec as a whole: decoding undoes encoding, and a
//! damaged frame is never taken for a good one.
use vstd::prelude::*;

use crate::error::DecodeError;
use crate::frame::{decode_frame, decode_payload, Address, FrameType, FrameView, PayloadView};
use crate::wire::{
    lemma_u32_le_roundtrip, lemma_unstuff_stuff, lemma_xor_checksum_update, stuff, unstuff,
    xor_checksum,
};

verus! {

/// The length field of a valid frame holds the payload length, and the frame
/// has the length that the header announces.
pub proof fn lemma_inner_shape(f: FrameView)
    requires
        f.valid(),
    ensures
        f.inner().len() == 6 + f.payload.bytes().len(),
        f.payload.bytes().len() <= 64,
        f.inner().subrange(0, 5) == f.header(),
        f.inner().subrange(5, f.inner().len() - 1) == f.payload.bytes(),
        f.inner().drop_last() == f.body(),
        f.inner().last() == xor_checksum(f.body()),
{
    match f.payload {
        PayloadView::Join(id) => {
            lemma_u32_le_roundtrip(id);
        },
        PayloadView::SetAddress { address, id } => {
            lemma_u32_le_roundtrip(id);
        },
        _ => {},
    }
    assert(f.inner().subrange(0, 5) =~= f.header());
    assert(f.inner().subrange(5, f.inner().len() - 1) =~= f.payload.bytes());
    assert(f.inner().drop_last() =~= f.body());
}

/// Decoding the inner bytes of a valid frame gives the frame back, whatever
/// its type and payload.
pub proof fn lemma_decode_inner(f: FrameView)
    requires
        f.valid(),
    ensures
        decode_frame(f.inner()) == Ok::<FrameView, DecodeError>(f),
{
    lemma_inner_shape(f);
    let s = f.inner();
    let p = f.payload.bytes();
    let t = f.payload.frame_type();
    assert(s[0] == f.to_address.wire_byte());
    assert(s[1] == f.from_address);
    assert(s[2] == t.id());
    assert(s[3] + 256 * s[4] == p.len());
    assert(FrameType::of_id(t.id()) == Some(t));
    assert(Address::of_wire_byte(f.to_address.wire_byte()) == f.to_address);
    match f.payload {
        PayloadView::Join(id) => {
            lemma_u32_le_roundtrip(id);
        },
        PayloadView::SetAddress { address, id } => {
            lemma_u32_le_roundtrip(id);
        },
        _ => {},
    }
    assert(decode_payload(t, p) == Ok::<PayloadView, DecodeError>(f.payload));
}

/// Encoding and then decoding gives the frame back: the bytes that
/// [`Frame::encode`](crate::frame::Frame::encode) writes for a valid frame,
/// without the two delimiters and unstuffed, decode to that frame.
pub proof fn lemma_encode_decode_roundtrip(f: FrameView)
    requires
        f.valid(),
    ensures
        decode_frame(unstuff(f.wire().subrange(1, f.wire().len() - 1))) == Ok::<
            FrameView,
            DecodeError,
        >(f),
{
    assert(f.wire().subrange(1, f.wire().len() - 1) =~= stuff(f.inner()));
    lemma_unstuff_stuff(f.inner());
    lemma_decode_inner(f);
}

/// A frame whose inner bytes differ from those of a frame in one byte is
/// rejected for its checksum: the xor over `H ‖ P ‖ C` is no longer zero.
pub proof fn lemma_byte_damage_detected(f: FrameView, i: int, mask: u8)
    requires
        0 <= i < f.inner().len(),
        mask != 0,
    ensures
        decode_frame(f.inner().update(i, (f.inner()[i] ^ mask) as u8)) == Err::<
            FrameView,
            DecodeError,
        >(DecodeError::InvalidChecksum),
{
    let s = f.inner();
    let t = s.update(i, (s[i] ^ mask) as u8);
    lemma_xor_checksum_update(s, i, mask);
    assert(s.drop_last() =~= f.body());
    let c = xor_checksum(f.body());
    let x = xor_checksum(t.drop_last());
    let y = t.last();
    assert(xor_checksum(s) == c ^ c);
    assert(xor_checksum(t) == x ^ y);
    assert((c ^ c) ^ mask == x ^ y ==> x != y || mask == 0) by (bit_vector);
}

/// Flipping any single bit of the inner bytes `H ‖ P ‖ C` of a frame makes
/// decoding fail with `InvalidChecksum`; the damaged frame is never accepted.
pub proof fn lemma_bit_flip_detected(f: FrameView, i: int, bit: u8)
    requires
        0 <= i < f.inner().len(),
        bit < 8,
    ensures
        decode_frame(f.inner().update(i, (f.inner()[i] ^ (1u8 << bit)) as u8)) == Err::<
            FrameView,
            DecodeError,
        >(DecodeError::InvalidChecksum),
{
    assert(bit < 8 ==> (1u8 << bit) != 0) by (bit_vector);
    lemma_byte_damage_detected(f, i, 1u8 << bit);
}

} // verus!
