//! What a single flipped bit on the wire does to a frame: the parser turns
//! the damaged frame away with an error, and hands out no frame in its place.
//!
//! One kind of damage is left out, because the wire format cannot tell it
//! from a sender that starts anew: a flip that makes a start-of-frame
//! delimiter. The parser then restarts, and what follows the new delimiter
//! is read as a frame of its own.
use vstd::prelude::*;

use crate::codec_proofs::lemma_byte_damage_detected;
use crate::error::DecodeError;
use crate::frame::{decode_frame, FrameView};
use crate::parser::{scan, scan_all, step, ScanState};
use crate::parser_proofs::{lemma_scan_junk, lemma_scan_progress, lemma_scan_stuffed};
use crate::wire::{
    is_reserved, lemma_stuff_front, lemma_stuff_no_delimiter, lemma_xor_checksum_append,
    lemma_xor_checksum_single, stuff, stuff_byte, xor_checksum,
};
use crate::{EOF, ESC, ESC_XOR, SOF};

verus! {

/// Whether a result is one of the errors by which a damaged frame is turned
/// away.
pub open spec fn turned_away(result: Result<FrameView, DecodeError>) -> bool {
    match result {
        Ok(_) => false,
        Err(e) => {
            ||| e == DecodeError::InvalidChecksum
            ||| e is UnknownFrameType
            ||| e == DecodeError::InvalidPayloadLength
            ||| e == DecodeError::InvalidEscapeSequence
        },
    }
}

/// The xor over all inner bytes of a frame, checksum included, is zero.
pub proof fn lemma_inner_balanced(f: FrameView)
    ensures
        xor_checksum(f.inner()) == 0,
{
    let body = f.body();
    let c = xor_checksum(body);
    assert(f.inner().drop_last() =~= body);
    assert(c ^ c == 0) by (bit_vector);
}

/// Bytes whose xor is not zero do not decode: the checksum is wrong, unless
/// they are too few to be a frame at all.
pub proof fn lemma_unbalanced_turned_away(g: Seq<u8>)
    requires
        xor_checksum(g) != 0,
    ensures
        decode_frame(g) == Err::<FrameView, DecodeError>(DecodeError::InvalidChecksum)
            || decode_frame(g) == Err::<FrameView, DecodeError>(
            DecodeError::InvalidPayloadLength,
        ),
{
    if g.len() >= 6 {
        let x = xor_checksum(g.drop_last());
        let y = g.last();
        assert(x ^ y != 0 ==> x != y) by (bit_vector);
    }
}

/// A frame that is cut short does not decode: its length field announces
/// more than is there.
pub proof fn lemma_prefix_turned_away(f: FrameView, m: int)
    requires
        f.valid(),
        0 <= m < f.inner().len(),
    ensures
        decode_frame(f.inner().take(m)) == Err::<FrameView, DecodeError>(
            DecodeError::InvalidChecksum,
        ) || decode_frame(f.inner().take(m)) == Err::<FrameView, DecodeError>(
            DecodeError::InvalidPayloadLength,
        ),
{
    crate::codec_proofs::lemma_inner_shape(f);
    let inner = f.inner();
    let cut = inner.take(m);
    if m >= 6 {
        assert(cut[3] == inner[3]);
        assert(cut[4] == inner[4]);
        assert(inner[3] == f.header()[3]);
        assert(inner[4] == f.header()[4]);
        assert(cut[3] + 256 * cut[4] == f.payload.bytes().len());
    }
}

/// The checksum of a sequence, unfolded at the front.
pub proof fn lemma_xor_checksum_front(s: Seq<u8>)
    requires
        s.len() > 0,
    ensures
        xor_checksum(s) == s[0] ^ xor_checksum(s.skip(1)),
{
    assert(s == seq![s[0]] + s.skip(1));
    lemma_xor_checksum_append(seq![s[0]], s.skip(1));
    lemma_xor_checksum_single(s[0]);
}

/// Outside a frame, input without a start-of-frame delimiter gives no result.
pub proof fn lemma_scan_all_junk(input: Seq<u8>, capacity: nat)
    requires
        forall|i: int| 0 <= i < input.len() ==> input[i] != SOF,
    ensures
        scan_all(ScanState::WaitingForSof, input, capacity) == (
            ScanState::WaitingForSof,
            Seq::<Result<FrameView, DecodeError>>::empty(),
        ),
{
    lemma_scan_junk(input, Seq::<u8>::empty(), capacity);
    assert(input + Seq::<u8>::empty() == input);
}

/// What a scan leaves is the end of what it was given, and after a result
/// the parser waits for the next frame.
pub proof fn lemma_scan_rest(state: ScanState, input: Seq<u8>, capacity: nat)
    ensures
        scan(state, input, capacity).1.len() <= input.len(),
        scan(state, input, capacity).1 == input.skip(
            input.len() - scan(state, input, capacity).1.len(),
        ),
        scan(state, input, capacity).2 is Some ==> scan(state, input, capacity).0
            == ScanState::WaitingForSof,
    decreases input.len(),
{
    if input.len() > 0 {
        let (next, output) = step(state, input[0], capacity);
        let tail = input.skip(1);
        lemma_scan_rest(next, tail, capacity);
        if output is None {
            let rest = scan(next, tail, capacity).1;
            assert(tail.skip(tail.len() - rest.len()) == input.skip(input.len() - rest.len()));
        } else {
            assert(input.skip(1) == input.skip(input.len() - tail.len()));
        }
    } else {
        assert(input.skip(0) == input);
    }
}

/// Inside a frame, scanning the stuffed image of `b` and the end-of-frame
/// delimiter decodes the frame under construction with `b` appended.
pub proof fn lemma_scan_to_end(frame: Seq<u8>, b: Seq<u8>, capacity: nat)
    requires
        frame.len() + b.len() <= capacity,
    ensures
        scan(
            ScanState::Receiving { frame, escaping: false },
            stuff(b) + seq![EOF],
            capacity,
        ) == (ScanState::WaitingForSof, Seq::<u8>::empty(), Some(decode_frame(frame + b))),
{
    lemma_scan_stuffed(frame, b, seq![EOF], capacity);
    let last = seq![EOF];
    assert(last[0] == EOF);
    assert(last.skip(1) == Seq::<u8>::empty());
}

/// The index in `s` of the byte whose wire image holds position `j` of the
/// stuffed sequence.
pub open spec fn source_index(s: Seq<u8>, j: int) -> int
    decreases s.len(),
{
    if s.len() == 0 || j < stuff_byte(s[0]).len() {
        0
    } else {
        1 + source_index(s.skip(1), j - stuff_byte(s[0]).len())
    }
}

/// A stuffed sequence falls into the image of what precedes a byte, the
/// image of the byte and the image of what follows it.
pub proof fn lemma_source_index(s: Seq<u8>, j: int)
    requires
        0 <= j < stuff(s).len(),
    ensures
        ({
            let m = source_index(s, j);
            &&& 0 <= m < s.len()
            &&& stuff(s) == stuff(s.take(m)) + stuff_byte(s[m]) + stuff(s.skip(m + 1))
            &&& stuff(s.take(m)).len() <= j < stuff(s.take(m)).len() + stuff_byte(s[m]).len()
        }),
    decreases s.len(),
{
    assert(s.len() > 0);
    lemma_stuff_front(s);
    let head = stuff_byte(s[0]);
    if j < head.len() {
        assert(s.take(0) == Seq::<u8>::empty());
        assert(stuff(s.take(0)) + head == head);
    } else {
        let tail = s.skip(1);
        let m1 = source_index(tail, j - head.len());
        lemma_source_index(tail, j - head.len());
        let m = m1 + 1;
        assert(s.take(m).len() > 0);
        lemma_stuff_front(s.take(m));
        assert(s.take(m)[0] == s[0]);
        assert(s.take(m).skip(1) == tail.take(m1));
        assert(tail[m1] == s[m]);
        assert(tail.skip(m1 + 1) == s.skip(m + 1));
        assert(stuff(s) == head + (stuff(tail.take(m1)) + stuff_byte(s[m]) + stuff(s.skip(m + 1))));
        assert(head + (stuff(tail.take(m1)) + stuff_byte(s[m]) + stuff(s.skip(m + 1))) == (head
            + stuff(tail.take(m1))) + stuff_byte(s[m]) + stuff(s.skip(m + 1)));
    }
}

/// Scanning, unfolded at the first byte of the input.
pub proof fn lemma_scan_first(state: ScanState, byte: u8, rest: Seq<u8>, capacity: nat)
    ensures
        scan(state, seq![byte] + rest, capacity) == (if step(state, byte, capacity).1 is Some {
            (step(state, byte, capacity).0, rest, step(state, byte, capacity).1)
        } else {
            scan(step(state, byte, capacity).0, rest, capacity)
        }),
{
    let input = seq![byte] + rest;
    assert(input[0] == byte);
    assert(input.skip(1) == rest);
}

/// What one flipped bit can make of a byte that is not reserved.
proof fn lemma_flip_plain(v: u8, bit: u8)
    requires
        bit < 8,
        !is_reserved(v),
    ensures
        (v ^ (1u8 << bit)) as u8 != v,
        (v ^ (1u8 << bit)) as u8 == ESC ==> v != ESC_XOR,
{
    assert(bit < 8 ==> (v ^ (1u8 << bit)) != v && ((v ^ (1u8 << bit)) == 0xFDu8 ==> v != 0x20u8))
        by (bit_vector);
}

/// What one flipped bit can make of the escape marker.
proof fn lemma_flip_escape(bit: u8)
    requires
        bit < 8,
    ensures
        (ESC ^ (1u8 << bit)) as u8 != ESC,
        (ESC ^ (1u8 << bit)) as u8 != SOF,
        (ESC ^ (1u8 << bit)) as u8 != ESC_XOR,
{
    assert(bit < 8 ==> (0xFDu8 ^ (1u8 << bit)) != 0xFDu8 && (0xFDu8 ^ (1u8 << bit)) != 0xFEu8 && (
    0xFDu8 ^ (1u8 << bit)) != 0x20u8) by (bit_vector);
}

/// The damaged frame when the flip hits a byte that travels as it is and
/// leaves it a byte that travels as it is.
proof fn lemma_damage_plain(f: FrameView, m: int, bit: u8, capacity: nat)
    requires
        f.inner().len() <= capacity,
        0 <= m < f.inner().len(),
        bit < 8,
        !is_reserved((f.inner()[m] ^ (1u8 << bit)) as u8),
    ensures
        scan(
            ScanState::Receiving { frame: f.inner().take(m), escaping: false },
            seq![(f.inner()[m] ^ (1u8 << bit)) as u8] + (stuff(f.inner().skip(m + 1)) + seq![EOF]),
            capacity,
        ).2 == Some(Err::<FrameView, DecodeError>(DecodeError::InvalidChecksum)),
{
    let inner = f.inner();
    let a = inner.take(m);
    let b = inner.skip(m + 1);
    let w = (inner[m] ^ (1u8 << bit)) as u8;
    let tail = stuff(b) + seq![EOF];
    lemma_scan_first(ScanState::Receiving { frame: a, escaping: false }, w, tail, capacity);
    lemma_scan_to_end(a.push(w), b, capacity);
    assert(a.push(w) + b == inner.update(m, w));
    assert(bit < 8 ==> (1u8 << bit) != 0) by (bit_vector);
    lemma_byte_damage_detected(f, m, 1u8 << bit);
}

/// The damaged frame when the flip makes an end-of-frame delimiter: the
/// frame is cut short.
proof fn lemma_damage_cut(f: FrameView, m: int, rest: Seq<u8>, capacity: nat)
    requires
        f.valid(),
        0 <= m < f.inner().len(),
    ensures
        ({
            let output = scan(
                ScanState::Receiving { frame: f.inner().take(m), escaping: false },
                seq![EOF] + rest,
                capacity,
            ).2;
            output matches Some(r) && turned_away(r)
        }),
{
    lemma_scan_first(
        ScanState::Receiving { frame: f.inner().take(m), escaping: false },
        EOF,
        rest,
        capacity,
    );
    lemma_prefix_turned_away(f, m);
}

/// The damaged frame when the flip makes an escape marker of a byte that
/// travels as it is: the byte is lost, and the next one is changed or makes
/// a bad escape sequence.
proof fn lemma_damage_escape(f: FrameView, m: int, capacity: nat)
    requires
        f.inner().len() <= capacity,
        0 <= m < f.inner().len(),
        f.inner()[m] != ESC_XOR,
    ensures
        ({
            let output = scan(
                ScanState::Receiving { frame: f.inner().take(m), escaping: false },
                seq![ESC] + (stuff(f.inner().skip(m + 1)) + seq![EOF]),
                capacity,
            ).2;
            output matches Some(r) && turned_away(r)
        }),
{
    let inner = f.inner();
    let a = inner.take(m);
    let v = inner[m];
    let b = inner.skip(m + 1);
    let tail = stuff(b) + seq![EOF];
    let start = ScanState::Receiving { frame: a, escaping: false };
    let escaped = ScanState::Receiving { frame: a, escaping: true };
    lemma_scan_first(start, ESC, tail, capacity);
    if b.len() == 0 {
        assert(tail == seq![EOF] + Seq::<u8>::empty());
        lemma_scan_first(escaped, EOF, Seq::<u8>::empty(), capacity);
    } else {
        let b0 = b[0];
        let later = stuff(b.skip(1)) + seq![EOF];
        lemma_stuff_front(b);
        if is_reserved(b0) {
            let after = seq![(b0 ^ ESC_XOR) as u8] + later;
            assert(tail == seq![ESC] + after);
            lemma_scan_first(escaped, ESC, after, capacity);
        } else {
            assert(tail == seq![b0] + later);
            lemma_scan_first(escaped, b0, later, capacity);
            let changed = (b0 ^ ESC_XOR) as u8;
            lemma_scan_to_end(a.push(changed), b.skip(1), capacity);
            let g = a.push(changed) + b.skip(1);
            assert(inner == a + seq![v] + b);
            lemma_inner_balanced(f);
            lemma_xor_checksum_append(a, seq![v]);
            lemma_xor_checksum_append(a + seq![v], b);
            lemma_xor_checksum_single(v);
            lemma_xor_checksum_front(b);
            assert(a.push(changed) == a + seq![changed]);
            lemma_xor_checksum_append(a, seq![changed]);
            lemma_xor_checksum_append(a + seq![changed], b.skip(1));
            lemma_xor_checksum_single(changed);
            let xa = xor_checksum(a);
            let xr = xor_checksum(b.skip(1));
            assert(((xa ^ v) ^ (b0 ^ xr)) == 0 && v != 0x20u8 ==> ((xa ^ (b0 ^ 0x20u8)) ^ xr) != 0)
                by (bit_vector);
            lemma_unbalanced_turned_away(g);
        }
    }
}

/// The damaged frame when the flip hits the escape marker of a stuffed byte
/// and makes a byte that travels as it is: the frame grows by one byte.
proof fn lemma_damage_marker(f: FrameView, m: int, c: u8, capacity: nat)
    requires
        f.inner().len() < capacity,
        0 <= m < f.inner().len(),
        is_reserved(f.inner()[m]),
        !is_reserved(c),
        c != ESC_XOR,
    ensures
        ({
            let output = scan(
                ScanState::Receiving { frame: f.inner().take(m), escaping: false },
                seq![c, (f.inner()[m] ^ ESC_XOR) as u8] + (stuff(f.inner().skip(m + 1))
                    + seq![EOF]),
                capacity,
            ).2;
            output matches Some(r) && turned_away(r)
        }),
{
    let inner = f.inner();
    let a = inner.take(m);
    let v = inner[m];
    let e = (v ^ ESC_XOR) as u8;
    let b = inner.skip(m + 1);
    let tail = stuff(b) + seq![EOF];
    crate::wire::lemma_escaped_byte(v);
    assert(seq![c, e] + tail == seq![c] + (seq![e] + tail));
    lemma_scan_first(ScanState::Receiving { frame: a, escaping: false }, c, seq![e] + tail, capacity);
    lemma_scan_first(ScanState::Receiving { frame: a.push(c), escaping: false }, e, tail, capacity);
    lemma_scan_to_end(a.push(c).push(e), b, capacity);
    let g = a.push(c).push(e) + b;
    assert(inner == a + seq![v] + b);
    lemma_inner_balanced(f);
    lemma_xor_checksum_append(a, seq![v]);
    lemma_xor_checksum_append(a + seq![v], b);
    lemma_xor_checksum_single(v);
    assert(a.push(c).push(e) == a + seq![c] + seq![e]);
    lemma_xor_checksum_append(a, seq![c]);
    lemma_xor_checksum_append(a + seq![c], seq![e]);
    lemma_xor_checksum_append(a + seq![c] + seq![e], b);
    lemma_xor_checksum_single(c);
    lemma_xor_checksum_single(e);
    let xa = xor_checksum(a);
    let xb = xor_checksum(b);
    assert(((xa ^ v) ^ xb) == 0 && c != 0x20u8 ==> (((xa ^ c) ^ (v ^ 0x20u8)) ^ xb) != 0)
        by (bit_vector);
    lemma_unbalanced_turned_away(g);
}

/// The damaged frame when the flip hits the byte behind an escape marker.
proof fn lemma_damage_escaped(f: FrameView, m: int, bit: u8, capacity: nat)
    requires
        f.inner().len() <= capacity,
        0 <= m < f.inner().len(),
        bit < 8,
        is_reserved(f.inner()[m]),
        (((f.inner()[m] ^ ESC_XOR) as u8) ^ (1u8 << bit)) as u8 != SOF,
    ensures
        ({
            let output = scan(
                ScanState::Receiving { frame: f.inner().take(m), escaping: false },
                seq![ESC, (((f.inner()[m] ^ ESC_XOR) as u8) ^ (1u8 << bit)) as u8] + (stuff(
                    f.inner().skip(m + 1),
                ) + seq![EOF]),
                capacity,
            ).2;
            output matches Some(r) && turned_away(r)
        }),
{
    let inner = f.inner();
    let a = inner.take(m);
    let v = inner[m];
    let e = (v ^ ESC_XOR) as u8;
    let mask = 1u8 << bit;
    let e2 = (e ^ mask) as u8;
    let b = inner.skip(m + 1);
    let tail = stuff(b) + seq![EOF];
    let escaped = ScanState::Receiving { frame: a, escaping: true };
    assert(seq![ESC, e2] + tail == seq![ESC] + (seq![e2] + tail));
    lemma_scan_first(
        ScanState::Receiving { frame: a, escaping: false },
        ESC,
        seq![e2] + tail,
        capacity,
    );
    lemma_scan_first(escaped, e2, tail, capacity);
    if e2 != EOF && e2 != ESC {
        let w = (v ^ mask) as u8;
        assert(((v ^ 0x20u8) ^ mask) ^ 0x20u8 == v ^ mask) by (bit_vector);
        lemma_scan_to_end(a.push(w), b, capacity);
        assert(a.push(w) + b == inner.update(m, w));
        assert(bit < 8 ==> (1u8 << bit) != 0) by (bit_vector);
        lemma_byte_damage_detected(f, m, mask);
    }
}

/// The part of the proof below that looks at the damaged byte: whatever the
/// flip makes of the image of one inner byte, the frame under construction
/// ends in an error.
proof fn lemma_damaged_image(f: FrameView, m: int, k: int, bit: u8, capacity: nat)
    requires
        f.valid(),
        f.inner().len() < capacity,
        0 <= m < f.inner().len(),
        0 <= k < stuff_byte(f.inner()[m]).len(),
        bit < 8,
        (stuff_byte(f.inner()[m])[k] ^ (1u8 << bit)) as u8 != SOF,
    ensures
        ({
            let image = stuff_byte(f.inner()[m]);
            let output = scan(
                ScanState::Receiving { frame: f.inner().take(m), escaping: false },
                image.update(k, (image[k] ^ (1u8 << bit)) as u8) + (stuff(f.inner().skip(m + 1))
                    + seq![EOF]),
                capacity,
            ).2;
            output matches Some(r) && turned_away(r)
        }),
{
    let inner = f.inner();
    let v = inner[m];
    let mask = 1u8 << bit;
    let image = stuff_byte(v);
    let tail = stuff(inner.skip(m + 1)) + seq![EOF];
    let damaged = image.update(k, (image[k] ^ mask) as u8);
    if is_reserved(v) {
        let e = (v ^ ESC_XOR) as u8;
        if k == 0 {
            let c = (ESC ^ mask) as u8;
            lemma_flip_escape(bit);
            assert(damaged == seq![c, e]);
            if c == EOF {
                assert(damaged + tail == seq![EOF] + (seq![e] + tail));
                lemma_damage_cut(f, m, seq![e] + tail, capacity);
            } else {
                lemma_damage_marker(f, m, c, capacity);
            }
        } else {
            assert(damaged == seq![ESC, (e ^ mask) as u8]);
            lemma_damage_escaped(f, m, bit, capacity);
        }
    } else {
        let w = (v ^ mask) as u8;
        lemma_flip_plain(v, bit);
        assert(damaged == seq![w]);
        if w == EOF {
            lemma_damage_cut(f, m, tail, capacity);
        } else if w == ESC {
            lemma_damage_escape(f, m, capacity);
        } else {
            lemma_damage_plain(f, m, bit, capacity);
        }
    }
}

/// Checksum sensitivity on the wire: when one bit of the stuffed bytes of a
/// valid frame is flipped between the two delimiters, and the flip makes no
/// start-of-frame delimiter, a parser that waits for a frame hands out one
/// result, and that is `InvalidChecksum`, `UnknownFrameType`,
/// `InvalidPayloadLength` or `InvalidEscapeSequence`: never a frame. The
/// frame buffer must have room for one byte more than the frame, since a
/// damaged escape marker makes the frame longer.
pub proof fn lemma_wire_bit_flip_detected(f: FrameView, i: int, bit: u8, capacity: nat)
    requires
        f.valid(),
        f.inner().len() < capacity,
        1 <= i < f.wire().len() - 1,
        bit < 8,
        (f.wire()[i] ^ (1u8 << bit)) as u8 != SOF,
    ensures
        ({
            let damaged = f.wire().update(i, (f.wire()[i] ^ (1u8 << bit)) as u8);
            let results = scan_all(ScanState::WaitingForSof, damaged, capacity).1;
            &&& results.len() == 1
            &&& turned_away(results[0])
        }),
{
    let inner = f.inner();
    let wire = f.wire();
    let mask = 1u8 << bit;
    let damaged = wire.update(i, (wire[i] ^ mask) as u8);
    let j = i - 1;
    assert(wire[i] == stuff(inner)[j]);
    lemma_source_index(inner, j);
    let m = source_index(inner, j);
    let a = inner.take(m);
    let b = inner.skip(m + 1);
    let image = stuff_byte(inner[m]);
    let k = j - stuff(a).len();
    let tail = stuff(b) + seq![EOF];
    let hit = image.update(k, (image[k] ^ mask) as u8);
    assert(stuff(inner)[j] == image[k]);
    assert(damaged =~= seq![SOF] + (stuff(a) + (hit + tail)));

    let opened = ScanState::Receiving { frame: Seq::<u8>::empty(), escaping: false };
    let filled = ScanState::Receiving { frame: a, escaping: false };
    lemma_scan_first(ScanState::WaitingForSof, SOF, stuff(a) + (hit + tail), capacity);
    lemma_scan_stuffed(Seq::<u8>::empty(), a, hit + tail, capacity);
    assert(Seq::<u8>::empty() + a == a);
    assert(scan(ScanState::WaitingForSof, damaged, capacity) == scan(filled, hit + tail, capacity));
    lemma_damaged_image(f, m, k, bit, capacity);

    let (state, rest, output) = scan(ScanState::WaitingForSof, damaged, capacity);
    lemma_scan_rest(ScanState::WaitingForSof, damaged, capacity);
    lemma_scan_progress(ScanState::WaitingForSof, damaged, capacity);
    let skipped = damaged.len() - rest.len();
    assert forall|q: int| 0 <= q < rest.len() implies rest[q] != SOF by {
        let p = q + skipped;
        assert(rest[q] == damaged[p]);
        if p != i && p < wire.len() - 1 {
            assert(damaged[p] == stuff(inner)[p - 1]);
            lemma_stuff_no_delimiter(inner, p - 1);
        }
    }
    lemma_scan_all_junk(rest, capacity);
    let results = scan_all(ScanState::WaitingForSof, damaged, capacity).1;
    assert(results == seq![output.unwrap()] + Seq::<Result<FrameView, DecodeError>>::empty());
}

} // verus!
