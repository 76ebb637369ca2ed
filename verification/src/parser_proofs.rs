//! What holds of the streaming parser as a whole: an encoded frame comes out
//! as the frame, whatever its payload holds, whatever junk precedes it and
//! however the bytes are cut into chunks.
use vstd::prelude::*;

use crate::codec_proofs::lemma_decode_inner;
use crate::error::DecodeError;
use crate::frame::FrameView;
use crate::parser::{scan, scan_all, step, ParserView, ScanOutput, ScanState};
use crate::wire::{lemma_escaped_byte, lemma_stuff_front, stuff};
use crate::{EOF, SOF};

verus! {

/// A scan that hands out nothing has used up its input.
pub proof fn lemma_scan_quiet(state: ScanState, input: Seq<u8>, capacity: nat)
    requires
        scan(state, input, capacity).2 is None,
    ensures
        scan(state, input, capacity).1 == Seq::<u8>::empty(),
    decreases input.len(),
{
    if input.len() > 0 {
        let (next, output) = step(state, input[0], capacity);
        lemma_scan_quiet(next, input.skip(1), capacity);
    }
}

/// A scan never returns more bytes than it was given, and one that hands out
/// a result has used up at least one byte.
pub proof fn lemma_scan_progress(state: ScanState, input: Seq<u8>, capacity: nat)
    ensures
        scan(state, input, capacity).1.len() <= input.len(),
        scan(state, input, capacity).2 is Some ==> scan(state, input, capacity).1.len()
            < input.len(),
    decreases input.len(),
{
    if input.len() > 0 {
        let (next, output) = step(state, input[0], capacity);
        lemma_scan_progress(next, input.skip(1), capacity);
    }
}

/// When scanning `a` hands out nothing, scanning `a + b` is scanning `b` from
/// the state that `a` leads to.
pub proof fn lemma_scan_append_quiet(state: ScanState, a: Seq<u8>, b: Seq<u8>, capacity: nat)
    requires
        scan(state, a, capacity).2 is None,
    ensures
        scan(state, a + b, capacity) == scan(scan(state, a, capacity).0, b, capacity),
    decreases a.len(),
{
    if a.len() == 0 {
        assert(a + b == b);
    } else {
        let (next, output) = step(state, a[0], capacity);
        assert((a + b)[0] == a[0]);
        assert((a + b).skip(1) == a.skip(1) + b);
        lemma_scan_append_quiet(next, a.skip(1), b, capacity);
    }
}

/// When scanning `a` hands out a result, scanning `a + b` hands out the same
/// result and leaves `b` behind what `a` left.
pub proof fn lemma_scan_append_output(state: ScanState, a: Seq<u8>, b: Seq<u8>, capacity: nat)
    requires
        scan(state, a, capacity).2 is Some,
    ensures
        scan(state, a + b, capacity) == (
            scan(state, a, capacity).0,
            scan(state, a, capacity).1 + b,
            scan(state, a, capacity).2,
        ),
    decreases a.len(),
{
    if a.len() > 0 {
        let (next, output) = step(state, a[0], capacity);
        assert((a + b)[0] == a[0]);
        assert((a + b).skip(1) == a.skip(1) + b);
        if output is None {
            lemma_scan_append_output(next, a.skip(1), b, capacity);
        }
    }
}

/// Inside a frame, scanning the stuffed image of `s` appends `s` to the frame
/// under construction, provided the frame buffer has room for it.
pub proof fn lemma_scan_stuffed(frame: Seq<u8>, s: Seq<u8>, tail: Seq<u8>, capacity: nat)
    requires
        frame.len() + s.len() <= capacity,
    ensures
        scan(ScanState::Receiving { frame, escaping: false }, stuff(s) + tail, capacity) == scan(
            ScanState::Receiving { frame: frame + s, escaping: false },
            tail,
            capacity,
        ),
    decreases s.len(),
{
    let start = ScanState::Receiving { frame, escaping: false };
    if s.len() == 0 {
        assert(stuff(s) + tail == tail);
        assert(frame + s == frame);
    } else {
        let byte = s[0];
        let input = stuff(s) + tail;
        let rest = stuff(s.skip(1)) + tail;
        lemma_stuff_front(s);
        lemma_scan_stuffed(frame.push(byte), s.skip(1), tail, capacity);
        assert(frame.push(byte) + s.skip(1) == frame + s);
        if byte == SOF || byte == EOF || byte == crate::ESC {
            lemma_escaped_byte(byte);
            let escaped = (byte ^ crate::ESC_XOR) as u8;
            assert(input[0] == crate::ESC);
            assert(input.skip(1)[0] == escaped);
            assert(input.skip(1).skip(1) == rest);
            let middle = ScanState::Receiving { frame, escaping: true };
            assert(step(start, input[0], capacity) == (middle, None::<Result<FrameView, DecodeError>>));
            assert(step(middle, escaped, capacity).0 == ScanState::Receiving {
                frame: frame.push(byte),
                escaping: false,
            });
            assert(scan(start, input, capacity) == scan(middle, input.skip(1), capacity));
        } else {
            assert(input[0] == byte);
            assert(input.skip(1) == rest);
        }
    }
}

/// Stuffing transparency: from any state, scanning the wire image of a valid
/// frame hands out exactly that frame at its last byte, whichever reserved
/// bytes the payload holds, and leaves the parser waiting with nothing to
/// scan. The frame buffer must have room for the unstuffed frame.
pub proof fn lemma_scan_wire(state: ScanState, f: FrameView, capacity: nat)
    requires
        f.valid(),
        f.inner().len() <= capacity,
    ensures
        scan(state, f.wire(), capacity) == (
            ScanState::WaitingForSof,
            Seq::<u8>::empty(),
            Some(Ok::<FrameView, DecodeError>(f)),
        ),
        scan(ScanState::WaitingForSof, Seq::<u8>::empty(), capacity).2 is None,
{
    let inner = f.inner();
    let wire = f.wire();
    let body = stuff(inner) + seq![EOF];
    let opened = ScanState::Receiving { frame: Seq::<u8>::empty(), escaping: false };
    let filled = ScanState::Receiving { frame: inner, escaping: false };
    assert(wire[0] == SOF);
    assert(wire.skip(1) == body);
    assert(step(state, SOF, capacity) == (opened, None::<Result<FrameView, DecodeError>>));
    assert(scan(state, wire, capacity) == scan(opened, body, capacity));
    lemma_scan_stuffed(Seq::<u8>::empty(), inner, seq![EOF], capacity);
    assert(Seq::<u8>::empty() + inner == inner);
    lemma_decode_inner(f);
    let last = seq![EOF];
    assert(last[0] == EOF);
    assert(last.skip(1) == Seq::<u8>::empty());
    assert(step(filled, EOF, capacity).1 == Some(Ok::<FrameView, DecodeError>(f)));
}

/// Taking out every result, as [`scan_all`] does, gives exactly one for the
/// wire image of a valid frame: the frame.
pub proof fn lemma_scan_all_wire(state: ScanState, f: FrameView, capacity: nat)
    requires
        f.valid(),
        f.inner().len() <= capacity,
    ensures
        scan_all(state, f.wire(), capacity) == (
            ScanState::WaitingForSof,
            seq![Ok::<FrameView, DecodeError>(f)],
        ),
{
    lemma_scan_wire(state, f, capacity);
    let none = Seq::<Result<FrameView, DecodeError>>::empty();
    assert(scan_all(ScanState::WaitingForSof, Seq::<u8>::empty(), capacity).1 == none);
    assert(seq![Ok::<FrameView, DecodeError>(f)] + none == seq![Ok::<FrameView, DecodeError>(f)]);
}

/// Outside a frame, bytes other than the start-of-frame delimiter are
/// skipped.
pub proof fn lemma_scan_junk(junk: Seq<u8>, rest: Seq<u8>, capacity: nat)
    requires
        forall|i: int| 0 <= i < junk.len() ==> junk[i] != SOF,
    ensures
        scan(ScanState::WaitingForSof, junk + rest, capacity) == scan(
            ScanState::WaitingForSof,
            rest,
            capacity,
        ),
    decreases junk.len(),
{
    if junk.len() == 0 {
        assert(junk + rest == rest);
    } else {
        assert((junk + rest)[0] == junk[0]);
        assert((junk + rest).skip(1) == junk.skip(1) + rest);
        lemma_scan_junk(junk.skip(1), rest, capacity);
    }
}

/// Resynchronisation: a parser that waits for a frame and is given any bytes
/// without a start-of-frame delimiter, followed by the wire image of a valid
/// frame, hands out exactly that frame.
pub proof fn lemma_scan_junk_then_wire(junk: Seq<u8>, f: FrameView, capacity: nat)
    requires
        forall|i: int| 0 <= i < junk.len() ==> junk[i] != SOF,
        f.valid(),
        f.inner().len() <= capacity,
    ensures
        scan(ScanState::WaitingForSof, junk + f.wire(), capacity) == (
            ScanState::WaitingForSof,
            Seq::<u8>::empty(),
            Some(Ok::<FrameView, DecodeError>(f)),
        ),
{
    lemma_scan_junk(junk, f.wire(), capacity);
    lemma_scan_wire(ScanState::WaitingForSof, f, capacity);
}

/// What a parser does when it is given the chunks one by one: each is
/// written with `write_data`, which leaves out a chunk that does not fit, and
/// followed by one call of `next_frame`. The result is the parser at the end
/// and what each call of `next_frame` returned.
pub open spec fn feed(
    parser: ParserView,
    chunks: Seq<Seq<u8>>,
    rx_capacity: nat,
    frame_capacity: nat,
) -> (ParserView, Seq<ScanOutput>)
    decreases chunks.len(),
{
    if chunks.len() == 0 {
        (parser, Seq::empty())
    } else {
        let written = if parser.fits(chunks.first(), rx_capacity) {
            parser.append(chunks.first())
        } else {
            parser
        };
        let (scanned, output) = written.advance(frame_capacity);
        let (last, outputs) = feed(scanned, chunks.drop_first(), rx_capacity, frame_capacity);
        (last, seq![output] + outputs)
    }
}

/// Whether exactly one of the outcomes is a result, and that result is
/// `output`.
pub open spec fn single_output(outputs: Seq<ScanOutput>, output: ScanOutput) -> bool {
    exists|k: int|
        {
            &&& 0 <= k < outputs.len()
            &&& #[trigger] outputs[k] == output
            &&& forall|j: int| 0 <= j < outputs.len() && j != k ==> (#[trigger] outputs[j]) is None
        }
}

/// A parser in the given state with nothing to scan.
pub open spec fn idle(state: ScanState) -> ParserView {
    ParserView { state, pending: Seq::empty() }
}

/// Chunks that hold no byte leave an idle parser as it is and give no result.
proof fn lemma_feed_nothing(
    state: ScanState,
    chunks: Seq<Seq<u8>>,
    rx_capacity: nat,
    frame_capacity: nat,
)
    requires
        chunks.flatten().len() == 0,
    ensures
        feed(idle(state), chunks, rx_capacity, frame_capacity).0 == idle(state),
        feed(idle(state), chunks, rx_capacity, frame_capacity).1.len() == chunks.len(),
        forall|j: int|
            0 <= j < chunks.len() ==> (#[trigger] feed(
                idle(state),
                chunks,
                rx_capacity,
                frame_capacity,
            ).1[j]) is None,
    decreases chunks.len(),
{
    if chunks.len() > 0 {
        assert(chunks.first().len() == 0);
        assert(idle(state).pending + chunks.first() == Seq::<u8>::empty());
        assert(idle(state).append(chunks.first()) == idle(state));
        lemma_feed_nothing(state, chunks.drop_first(), rx_capacity, frame_capacity);
    }
}

/// When scanning an input hands out a result at its very last byte, feeding
/// the input in chunks, however it is cut, gives that result once, after the
/// chunk that completes the input, and nothing after the other chunks. Each
/// chunk must fit the receive buffer.
pub proof fn lemma_feed_chunks(
    state: ScanState,
    chunks: Seq<Seq<u8>>,
    rx_capacity: nat,
    frame_capacity: nat,
)
    requires
        forall|k: int| 0 <= k < chunks.len() ==> (#[trigger] chunks[k]).len() <= rx_capacity,
        scan(state, chunks.flatten(), frame_capacity).1 == Seq::<u8>::empty(),
        scan(state, chunks.flatten(), frame_capacity).2 is Some,
    ensures
        ({
            let (last, outputs) = feed(idle(state), chunks, rx_capacity, frame_capacity);
            &&& last == idle(scan(state, chunks.flatten(), frame_capacity).0)
            &&& outputs.len() == chunks.len()
            &&& single_output(outputs, scan(state, chunks.flatten(), frame_capacity).2)
        }),
    decreases chunks.len(),
{
    let input = chunks.flatten();
    let goal = scan(state, input, frame_capacity);
    if chunks.len() == 0 {
        assert(input.len() == 0);
    } else {
        let chunk = chunks.first();
        let later = chunks.drop_first();
        let tail = later.flatten();
        assert(input == chunk + tail);
        assert(chunk == chunks[0]);
        assert(idle(state).fits(chunk, rx_capacity));
        assert(idle(state).pending + chunk == chunk);
        let (next, rest, output) = scan(state, chunk, frame_capacity);
        let scanned = ParserView { state: next, pending: rest };
        assert(idle(state).append(chunk).advance(frame_capacity) == (scanned, output));
        let (last, outputs) = feed(scanned, later, rx_capacity, frame_capacity);
        let all = seq![output] + outputs;
        assert(feed(idle(state), chunks, rx_capacity, frame_capacity) == (last, all));
        assert forall|k: int| 0 <= k < later.len() implies (#[trigger] later[k]).len()
            <= rx_capacity by {
            assert(later[k] == chunks[k + 1]);
        }
        if output is Some {
            lemma_scan_append_output(state, chunk, tail, frame_capacity);
            assert(rest + tail == Seq::<u8>::empty());
            assert(rest.len() == 0 && tail.len() == 0);
            assert(rest == Seq::<u8>::empty());
            assert(chunk + tail == chunk);
            lemma_feed_nothing(next, later, rx_capacity, frame_capacity);
            assert(all[0] == goal.2);
            assert forall|j: int| 0 <= j < all.len() && j != 0 implies (#[trigger] all[j]) is None by {
                assert(all[j] == outputs[j - 1]);
            }
        } else {
            lemma_scan_quiet(state, chunk, frame_capacity);
            lemma_scan_append_quiet(state, chunk, tail, frame_capacity);
            lemma_feed_chunks(next, later, rx_capacity, frame_capacity);
            let k = choose|k: int|
                {
                    &&& 0 <= k < outputs.len()
                    &&& #[trigger] outputs[k] == goal.2
                    &&& forall|j: int|
                        0 <= j < outputs.len() && j != k ==> (#[trigger] outputs[j]) is None
                };
            assert(all[k + 1] == outputs[k]);
            assert forall|j: int| 0 <= j < all.len() && j != k + 1 implies (#[trigger] all[j]) is None by {
                if j > 0 {
                    assert(all[j] == outputs[j - 1]);
                }
            }
        }
    }
}

/// Chunking invariance: however the wire image of a valid frame is cut into
/// chunks that fit the receive buffer, a parser that is given the chunks in
/// order and scans after each (see [`feed`]) hands out the frame exactly
/// once, and nothing else.
pub proof fn lemma_feed_wire_in_chunks(
    state: ScanState,
    chunks: Seq<Seq<u8>>,
    f: FrameView,
    rx_capacity: nat,
    frame_capacity: nat,
)
    requires
        f.valid(),
        f.inner().len() <= frame_capacity,
        chunks.flatten() == f.wire(),
        forall|k: int| 0 <= k < chunks.len() ==> (#[trigger] chunks[k]).len() <= rx_capacity,
    ensures
        ({
            let (last, outputs) = feed(idle(state), chunks, rx_capacity, frame_capacity);
            &&& last == ParserView::fresh()
            &&& outputs.len() == chunks.len()
            &&& single_output(outputs, Some(Ok::<FrameView, DecodeError>(f)))
        }),
{
    lemma_scan_wire(state, f, frame_capacity);
    lemma_feed_chunks(state, chunks, rx_capacity, frame_capacity);
}

} // verus!
