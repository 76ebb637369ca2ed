//! The byte-level building blocks of the wire format: little-endian numbers,
//! the xor checksum and byte stuffing, each with the facts that the codec and
//! the parser rely on.
use vstd::prelude::*;

use crate::{EOF, ESC, ESC_XOR, SOF};

verus! {

/// The four bytes of `x`, least significant first.
pub open spec fn u32_le_bytes(x: u32) -> Seq<u8> {
    seq![
        (x % 256) as u8,
        (x / 256 % 256) as u8,
        (x / 65536 % 256) as u8,
        (x / 16777216) as u8,
    ]
}

/// The number whose four bytes, least significant first, are `b0` to `b3`.
pub open spec fn u32_from_le_bytes(b0: u8, b1: u8, b2: u8, b3: u8) -> u32 {
    (b0 + 256 * b1 + 65536 * b2 + 16777216 * b3) as u32
}

/// The xor of all bytes of `s`; zero for the empty sequence.
pub open spec fn xor_checksum(s: Seq<u8>) -> u8
    decreases s.len(),
{
    if s.len() == 0 {
        0
    } else {
        xor_checksum(s.drop_last()) ^ s.last()
    }
}

/// Whether a byte has a meaning of its own on the wire and must be stuffed.
pub open spec fn is_reserved(byte: u8) -> bool {
    byte == SOF || byte == EOF || byte == ESC
}

/// The wire image of one inner byte.
pub open spec fn stuff_byte(byte: u8) -> Seq<u8> {
    if is_reserved(byte) {
        seq![ESC, byte ^ ESC_XOR]
    } else {
        seq![byte]
    }
}

/// The wire image of a sequence of inner bytes: each reserved byte is replaced
/// by the escape marker and the byte xor-ed with the escape mask.
pub open spec fn stuff(s: Seq<u8>) -> Seq<u8>
    decreases s.len(),
{
    if s.len() == 0 {
        Seq::empty()
    } else {
        stuff(s.drop_last()) + stuff_byte(s.last())
    }
}

/// Reading back the little-endian bytes of a number gives the number.
pub proof fn lemma_u32_le_roundtrip(x: u32)
    ensures
        u32_le_bytes(x).len() == 4,
        u32_from_le_bytes(
            u32_le_bytes(x)[0],
            u32_le_bytes(x)[1],
            u32_le_bytes(x)[2],
            u32_le_bytes(x)[3],
        ) == x,
{
}

/// The checksum of a concatenation is the xor of the two checksums.
pub proof fn lemma_xor_checksum_append(a: Seq<u8>, b: Seq<u8>)
    ensures
        xor_checksum(a + b) == xor_checksum(a) ^ xor_checksum(b),
    decreases b.len(),
{
    let x = xor_checksum(a);
    if b.len() == 0 {
        assert(a + b == a);
        assert(x ^ 0u8 == x) by (bit_vector);
    } else {
        lemma_xor_checksum_append(a, b.drop_last());
        assert((a + b).drop_last() == a + b.drop_last());
        assert((a + b).last() == b.last());
        let y = xor_checksum(b.drop_last());
        let z = b.last();
        assert((x ^ y) ^ z == x ^ (y ^ z)) by (bit_vector);
    }
}

/// The checksum of a single byte is the byte.
pub proof fn lemma_xor_checksum_single(byte: u8)
    ensures
        xor_checksum(seq![byte]) == byte,
{
    let s = seq![byte];
    assert(s.drop_last() == Seq::<u8>::empty());
    assert(xor_checksum(s.drop_last()) == 0);
    assert(0u8 ^ byte == byte) by (bit_vector);
}

/// Stuffing distributes over concatenation.
pub proof fn lemma_stuff_append(a: Seq<u8>, b: Seq<u8>)
    ensures
        stuff(a + b) == stuff(a) + stuff(b),
    decreases b.len(),
{
    if b.len() == 0 {
        assert(a + b == a);
    } else {
        lemma_stuff_append(a, b.drop_last());
        assert((a + b).drop_last() == a + b.drop_last());
        assert((a + b).last() == b.last());
    }
}

/// Stuffing a single byte gives that byte's wire image.
pub proof fn lemma_stuff_single(byte: u8)
    ensures
        stuff(seq![byte]) == stuff_byte(byte),
{
    let s = seq![byte];
    assert(s.drop_last() == Seq::<u8>::empty());
    assert(stuff(s.drop_last()) == Seq::<u8>::empty());
}

/// Stuffing can be unfolded at the front as well as at the back.
pub proof fn lemma_stuff_front(s: Seq<u8>)
    requires
        s.len() > 0,
    ensures
        stuff(s) == stuff_byte(s[0]) + stuff(s.skip(1)),
{
    assert(s == seq![s[0]] + s.skip(1));
    lemma_stuff_append(seq![s[0]], s.skip(1));
    lemma_stuff_single(s[0]);
}

/// Stuffing never shrinks a sequence and at most doubles it.
pub proof fn lemma_stuff_len(s: Seq<u8>)
    ensures
        s.len() <= stuff(s).len() <= 2 * s.len(),
    decreases s.len(),
{
    if s.len() > 0 {
        lemma_stuff_len(s.drop_last());
    }
}

/// The inner bytes that a stuffed sequence stands for: each escape marker is
/// dropped and the byte behind it is xor-ed with the escape mask.
pub open spec fn unstuff(w: Seq<u8>) -> Seq<u8>
    decreases w.len(),
{
    if w.len() == 0 {
        Seq::empty()
    } else if w[0] == ESC && w.len() >= 2 {
        seq![(w[1] ^ ESC_XOR) as u8] + unstuff(w.skip(2))
    } else {
        seq![w[0]] + unstuff(w.skip(1))
    }
}

/// A stuffed byte behind the escape marker gives the reserved byte back, and
/// is itself not reserved.
pub proof fn lemma_escaped_byte(byte: u8)
    requires
        is_reserved(byte),
    ensures
        !is_reserved((byte ^ ESC_XOR) as u8),
        ((byte ^ ESC_XOR) as u8) ^ ESC_XOR == byte,
{
    assert(0xFEu8 ^ 0x20u8 == 0xDEu8) by (bit_vector);
    assert(0xFFu8 ^ 0x20u8 == 0xDFu8) by (bit_vector);
    assert(0xFDu8 ^ 0x20u8 == 0xDDu8) by (bit_vector);
    assert(0xDEu8 ^ 0x20u8 == 0xFEu8) by (bit_vector);
    assert(0xDFu8 ^ 0x20u8 == 0xFFu8) by (bit_vector);
    assert(0xDDu8 ^ 0x20u8 == 0xFDu8) by (bit_vector);
}

/// Unstuffing is the inverse of stuffing.
pub proof fn lemma_unstuff_stuff(s: Seq<u8>)
    ensures
        unstuff(stuff(s)) == s,
    decreases s.len(),
{
    if s.len() == 0 {
    } else {
        let w = stuff(s);
        let rest = stuff(s.skip(1));
        lemma_stuff_front(s);
        lemma_unstuff_stuff(s.skip(1));
        if is_reserved(s[0]) {
            lemma_escaped_byte(s[0]);
            assert(w.skip(2) == rest);
            assert(seq![s[0]] + s.skip(1) == s);
        } else {
            assert(w.skip(1) == rest);
            assert(seq![s[0]] + s.skip(1) == s);
        }
    }
}

/// A stuffed sequence holds neither delimiter.
pub proof fn lemma_stuff_no_delimiter(s: Seq<u8>, i: int)
    requires
        0 <= i < stuff(s).len(),
    ensures
        stuff(s)[i] != SOF,
        stuff(s)[i] != EOF,
    decreases s.len(),
{
    if s.len() > 0 {
        let front = stuff(s.drop_last());
        if i < front.len() {
            lemma_stuff_no_delimiter(s.drop_last(), i);
        } else if is_reserved(s.last()) {
            lemma_escaped_byte(s.last());
        }
    }
}

/// Changing one byte of a sequence by xor-ing a mask onto it changes the
/// checksum by that mask.
pub proof fn lemma_xor_checksum_update(s: Seq<u8>, i: int, mask: u8)
    requires
        0 <= i < s.len(),
    ensures
        xor_checksum(s.update(i, (s[i] ^ mask) as u8)) == xor_checksum(s) ^ mask,
{
    let a = s.subrange(0, i);
    let b = s.subrange(i + 1, s.len() as int);
    let v = s[i];
    let w = (v ^ mask) as u8;
    assert(s == a + seq![v] + b);
    assert(s.update(i, w) == a + seq![w] + b);
    lemma_xor_checksum_append(a, seq![v]);
    lemma_xor_checksum_append(a + seq![v], b);
    lemma_xor_checksum_append(a, seq![w]);
    lemma_xor_checksum_append(a + seq![w], b);
    lemma_xor_checksum_single(v);
    lemma_xor_checksum_single(w);
    let x = xor_checksum(a);
    let y = xor_checksum(b);
    assert((x ^ (v ^ mask)) ^ y == ((x ^ v) ^ y) ^ mask) by (bit_vector);
}

/// `base` with as much of `bytes` written over it from index `at` as fits.
pub open spec fn overlay(base: Seq<u8>, at: int, bytes: Seq<u8>) -> Seq<u8> {
    Seq::new(
        base.len(),
        |i: int|
            if at <= i < at + bytes.len() {
                bytes[i - at]
            } else {
                base[i]
            },
    )
}

/// Writing `a` and then `b` right behind it is writing `a + b`.
pub proof fn lemma_overlay_append(base: Seq<u8>, at: int, a: Seq<u8>, b: Seq<u8>)
    requires
        0 <= at,
    ensures
        overlay(overlay(base, at, a), at + a.len(), b) == overlay(base, at, a + b),
{
    assert(overlay(overlay(base, at, a), at + a.len(), b) =~= overlay(base, at, a + b));
}

/// Writes `byte` at `idx` if the buffer reaches that far, and returns the
/// index behind it either way.
pub(crate) fn put_byte(byte: u8, idx: usize, buf: &mut [u8]) -> (next: usize)
    requires
        idx < usize::MAX,
    ensures
        next == idx + 1,
        final(buf)@ == overlay(old(buf)@, idx as int, seq![byte]),
{
    if idx < buf.len() {
        buf[idx] = byte;
    }
    proof {
        assert(buf@ =~= overlay(old(buf)@, idx as int, seq![byte]));
    }
    idx + 1
}

/// Writes the wire image of `data` from `idx` on, as far as the buffer
/// reaches, and returns the index behind the whole image either way.
pub(crate) fn put_stuffed(data: &[u8], idx: usize, buf: &mut [u8]) -> (next: usize)
    requires
        idx + 2 * data@.len() < usize::MAX,
    ensures
        next == idx + stuff(data@).len(),
        final(buf)@ == overlay(old(buf)@, idx as int, stuff(data@)),
{
    let mut at: usize = idx;
    let mut i: usize = 0;
    proof {
        assert(data@.subrange(0, 0) == Seq::<u8>::empty());
        assert(buf@ =~= overlay(old(buf)@, idx as int, Seq::<u8>::empty()));
    }
    while i < data.len()
        invariant
            i <= data@.len(),
            idx + 2 * data@.len() < usize::MAX,
            at == idx + stuff(data@.subrange(0, i as int)).len(),
            at <= idx + 2 * i,
            buf@ == overlay(old(buf)@, idx as int, stuff(data@.subrange(0, i as int))),
        decreases data@.len() - i,
    {
        let byte: u8 = data[i];
        let ghost done = stuff(data@.subrange(0, i as int));
        let ghost before = buf@;
        proof {
            let next = data@.subrange(0, i + 1);
            assert(next.drop_last() == data@.subrange(0, i as int));
            assert(next.last() == byte);
            assert(stuff(next) == done + stuff_byte(byte));
        }
        if byte == SOF || byte == EOF || byte == ESC {
            at = put_byte(ESC, at, buf);
            at = put_byte(byte ^ ESC_XOR, at, buf);
            proof {
                lemma_overlay_append(before, idx + done.len(), seq![ESC], seq![(byte ^ ESC_XOR) as u8]);
                assert(seq![ESC] + seq![(byte ^ ESC_XOR) as u8] == stuff_byte(byte));
            }
        } else {
            at = put_byte(byte, at, buf);
        }
        proof {
            lemma_overlay_append(old(buf)@, idx as int, done, stuff_byte(byte));
        }
        i += 1;
    }
    proof {
        assert(data@.subrange(0, i as int) == data@);
    }
    at
}

/// The four bytes of `x`, least significant first.
pub(crate) fn u32_to_le(x: u32) -> (bytes: [u8; 4])
    ensures
        bytes@ == u32_le_bytes(x),
{
    let bytes: [u8; 4] = [
        (x % 256) as u8,
        (x / 256 % 256) as u8,
        (x / 65536 % 256) as u8,
        (x / 16777216) as u8,
    ];
    proof {
        assert(bytes@ =~= u32_le_bytes(x));
    }
    bytes
}

/// The number whose four bytes, least significant first, are `b0` to `b3`.
pub(crate) fn u32_from_le(b0: u8, b1: u8, b2: u8, b3: u8) -> (x: u32)
    ensures
        x == u32_from_le_bytes(b0, b1, b2, b3),
{
    b0 as u32 + 256 * (b1 as u32) + 65536 * (b2 as u32) + 16777216 * (b3 as u32)
}

} // verus!
