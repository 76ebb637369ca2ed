//! The streaming frame parser.
//!
//! The parser takes arbitrary chunks of received bytes, skips what lies
//! between frames, undoes the byte stuffing and hands out one decode result
//! for each end-of-frame delimiter it meets. It works in two buffers that the
//! caller provides and never allocates.
//!
//! Its behaviour is defined by a small state machine over mathematical values:
//! [`step`] says what one byte does to a [`ScanState`], [`scan`] runs it over
//! the unscanned bytes until a result comes out or the bytes run out.
use vstd::prelude::*;
use vstd::slice::slice_subrange;

use crate::error::DecodeError;
use crate::frame::{decode_frame, Frame, FrameView};
use crate::{EOF, ESC, ESC_XOR, SOF};

verus! {

/// Where the parser stands between two bytes.
pub enum ScanState {
    /// Outside a frame; bytes are discarded until a start-of-frame delimiter.
    WaitingForSof,
    /// Inside a frame: the bytes unstuffed so far, and whether the last byte
    /// was an escape marker.
    Receiving { frame: Seq<u8>, escaping: bool },
}

/// What the parser hands out when a frame ends.
pub type ScanOutput = Option<Result<FrameView, DecodeError>>;

/// The effect of one received byte: the next state, and the result that the
/// byte completes, if any. `capacity` is the size of the frame buffer.
pub open spec fn step(state: ScanState, byte: u8, capacity: nat) -> (ScanState, ScanOutput) {
    match state {
        ScanState::WaitingForSof => if byte == SOF {
            (ScanState::Receiving { frame: Seq::empty(), escaping: false }, None)
        } else {
            (ScanState::WaitingForSof, None)
        },
        ScanState::Receiving { frame, escaping } => if byte == SOF {
            (ScanState::Receiving { frame: Seq::empty(), escaping: false }, None)
        } else if byte == EOF {
            if escaping {
                (ScanState::WaitingForSof, Some(Err(DecodeError::InvalidEscapeSequence)))
            } else {
                (ScanState::WaitingForSof, Some(decode_frame(frame)))
            }
        } else if byte == ESC {
            if escaping {
                (ScanState::WaitingForSof, Some(Err(DecodeError::InvalidEscapeSequence)))
            } else {
                (ScanState::Receiving { frame, escaping: true }, None)
            }
        } else if frame.len() >= capacity {
            (ScanState::WaitingForSof, Some(Err(DecodeError::FrameBufferTooSmall)))
        } else if escaping {
            (
                ScanState::Receiving { frame: frame.push((byte ^ ESC_XOR) as u8), escaping: false },
                None,
            )
        } else {
            (ScanState::Receiving { frame: frame.push(byte), escaping: false }, None)
        },
    }
}

/// The outcome of scanning `input` from `state`: the state reached, the bytes
/// left unscanned, and the first result that came out, if any. Scanning stops
/// behind the byte that completes a result.
pub open spec fn scan(state: ScanState, input: Seq<u8>, capacity: nat) -> (
    ScanState,
    Seq<u8>,
    ScanOutput,
)
    decreases input.len(),
{
    if input.len() == 0 {
        (state, input, None)
    } else {
        let (next, output) = step(state, input[0], capacity);
        if output is Some {
            (next, input.skip(1), output)
        } else {
            scan(next, input.skip(1), capacity)
        }
    }
}

/// All results that scanning `input` from `state` hands out, in order, and
/// the state that is reached when the input is used up. Every result uses up
/// at least one byte; the guard below only shows that the recursion ends.
pub open spec fn scan_all(state: ScanState, input: Seq<u8>, capacity: nat) -> (
    ScanState,
    Seq<Result<FrameView, DecodeError>>,
)
    decreases input.len(),
{
    let (next, rest, output) = scan(state, input, capacity);
    match output {
        Some(result) if rest.len() < input.len() => {
            let (last, results) = scan_all(next, rest, capacity);
            (last, seq![result] + results)
        },
        _ => (next, Seq::empty()),
    }
}

/// The views of a sequence of decode results.
pub open spec fn results_view(results: Seq<Result<Frame, DecodeError>>) -> Seq<
    Result<FrameView, DecodeError>,
> {
    Seq::new(
        results.len(),
        |i: int|
            match results[i] {
                Ok(frame) => Ok(frame@),
                Err(e) => Err(e),
            },
    )
}

/// The mathematical value of a [`FrameParser`].
pub struct ParserView {
    /// The state of the scan.
    pub state: ScanState,
    /// The bytes written to the parser and not yet scanned.
    pub pending: Seq<u8>,
}

impl ParserView {
    /// A parser that waits for the start of a frame and has nothing to scan.
    pub open spec fn fresh() -> ParserView {
        ParserView { state: ScanState::WaitingForSof, pending: Seq::empty() }
    }

    /// Whether `data` fits the receive buffer beside the unscanned bytes.
    pub open spec fn fits(self, data: Seq<u8>, rx_capacity: nat) -> bool {
        data.len() <= rx_capacity - self.pending.len()
    }

    /// The parser with `data` written behind the unscanned bytes.
    pub open spec fn append(self, data: Seq<u8>) -> ParserView {
        ParserView { state: self.state, pending: self.pending + data }
    }

    /// The parser after one scan of its unscanned bytes, and what the scan
    /// hands out.
    pub open spec fn advance(self, frame_capacity: nat) -> (ParserView, ScanOutput) {
        let (state, rest, output) = scan(self.state, self.pending, frame_capacity);
        (ParserView { state, pending: rest }, output)
    }
}

/// The view of what [`FrameParser::next_frame`] returns.
pub open spec fn output_view(output: Option<Result<Frame, DecodeError>>) -> ScanOutput {
    match output {
        None => None,
        Some(Err(e)) => Some(Err(e)),
        Some(Ok(frame)) => Some(Ok(frame@)),
    }
}

#[derive(Debug, Clone, Copy, PartialEq, Eq, Structural)]
enum ParserState {
    WaitingForSof,
    Receiving,
}

/// A streaming parser over two caller-provided buffers: `rx_buffer` collects
/// the received, still stuffed bytes, `frame_buffer` the unstuffed bytes of
/// the frame under construction.
pub struct FrameParser<'rx_buf, 'frame_buf> {
    rx_buffer: &'rx_buf mut [u8],
    rx_len: usize,
    rx_scan_pos: usize,
    frame_buffer: &'frame_buf mut [u8],
    frame_len: usize,
    state: ParserState,
    is_escaping: bool,
}

impl<'rx_buf, 'frame_buf> FrameParser<'rx_buf, 'frame_buf> {
    #[verifier::type_invariant]
    spec fn wf(&self) -> bool {
        &&& self.rx_scan_pos <= self.rx_len <= self.rx_buffer@.len()
        &&& self.frame_len <= self.frame_buffer@.len()
    }

    /// The size of the receive buffer.
    pub closed spec fn rx_capacity(&self) -> nat {
        self.rx_buffer@.len()
    }

    /// The size of the frame buffer: the longest unstuffed frame that the
    /// parser can hold.
    pub closed spec fn frame_capacity(&self) -> nat {
        self.frame_buffer@.len()
    }

    /// The number of bytes at the front of the receive buffer that have been
    /// scanned and still take up room.
    pub closed spec fn consumed(&self) -> nat {
        self.rx_scan_pos as nat
    }

    pub closed spec fn view(&self) -> ParserView {
        ParserView {
            state: match self.state {
                ParserState::WaitingForSof => ScanState::WaitingForSof,
                ParserState::Receiving => ScanState::Receiving {
                    frame: self.frame_buffer@.subrange(0, self.frame_len as int),
                    escaping: self.is_escaping,
                },
            },
            pending: self.rx_buffer@.subrange(self.rx_scan_pos as int, self.rx_len as int),
        }
    }

    /// A parser that waits for the start of a frame and holds no bytes.
    pub fn new(rx_buffer: &'rx_buf mut [u8], frame_buffer: &'frame_buf mut [u8]) -> (parser: Self)
        ensures
            parser@ == ParserView::fresh(),
            parser.rx_capacity() == old(rx_buffer)@.len(),
            parser.frame_capacity() == old(frame_buffer)@.len(),
            parser.consumed() == 0,
    {
        let parser = Self {
            rx_buffer,
            rx_len: 0,
            rx_scan_pos: 0,
            frame_buffer,
            frame_len: 0,
            state: ParserState::WaitingForSof,
            is_escaping: false,
        };
        proof {
            assert(parser@.pending =~= Seq::<u8>::empty());
        }
        parser
    }

    /// Appends `new_data` to the unscanned bytes, after moving them to the
    /// front of the receive buffer. Fails, leaving the unscanned bytes as
    /// they are, when the buffer has no room for all of `new_data`.
    pub fn write_data(&mut self, new_data: &[u8]) -> (r: Result<usize, DecodeError>)
        ensures
            final(self).rx_capacity() == old(self).rx_capacity(),
            final(self).frame_capacity() == old(self).frame_capacity(),
            final(self).consumed() == 0,
            old(self)@.fits(new_data@, old(self).rx_capacity()) ==> {
                &&& r == Ok::<usize, DecodeError>(new_data@.len() as usize)
                &&& final(self)@ == old(self)@.append(new_data@)
            },
            !old(self)@.fits(new_data@, old(self).rx_capacity()) ==> {
                &&& r == Err::<usize, DecodeError>(DecodeError::FrameBufferTooSmall)
                &&& final(self)@ == old(self)@
            },
    {
        self.compact();
        proof {
            use_type_invariant(&*self);
        }
        let free_space: usize = self.rx_buffer.len() - self.rx_len;
        if new_data.len() > free_space {
            return Err(DecodeError::FrameBufferTooSmall);
        }
        let ghost before = self.rx_buffer@;
        let capacity: usize = self.rx_buffer.len();
        let start: usize = self.rx_len;
        let mut i: usize = 0;
        while i < new_data.len()
            invariant
                i <= new_data@.len(),
                start + new_data@.len() <= capacity,
                self.rx_buffer@.len() == capacity,
                before.len() == capacity,
                self.rx_len == start,
                self.rx_scan_pos == 0,
                self.frame_buffer@ == old(self).frame_buffer@,
                self.frame_len == old(self).frame_len,
                self.frame_len <= self.frame_buffer@.len(),
                self.state == old(self).state,
                self.is_escaping == old(self).is_escaping,
                forall|j: int| 0 <= j < start ==> self.rx_buffer@[j] == before[j],
                forall|j: int| 0 <= j < i ==> self.rx_buffer@[start + j] == new_data@[j],
            decreases new_data@.len() - i,
        {
            self.rx_buffer[start + i] = new_data[i];
            i += 1;
        }
        self.rx_len = start + new_data.len();
        proof {
            assert(self@.pending =~= old(self)@.pending + new_data@);
        }
        Ok(new_data.len())
    }

    /// Scans the unscanned bytes until a frame ends or the bytes run out.
    /// Returns the decode result of the frame that ended, an error for a
    /// frame that cannot be taken in, or `None` when more bytes are needed.
    /// The frame under construction is kept from call to call.
    pub fn next_frame(&mut self) -> (r: Option<Result<Frame, DecodeError>>)
        ensures
            final(self).rx_capacity() == old(self).rx_capacity(),
            final(self).frame_capacity() == old(self).frame_capacity(),
            (final(self)@, output_view(r)) == old(self)@.advance(old(self).frame_capacity()),
    {
        proof {
            use_type_invariant(&*self);
        }
        let ghost capacity = self.frame_capacity();
        let ghost goal = scan(old(self)@.state, old(self)@.pending, capacity);
        while self.rx_scan_pos < self.rx_len
            invariant
                self.rx_scan_pos <= self.rx_len <= self.rx_buffer@.len(),
                self.frame_len <= self.frame_buffer@.len(),
                self.rx_capacity() == old(self).rx_capacity(),
                self.frame_capacity() == capacity,
                capacity == old(self).frame_capacity(),
                goal == scan(old(self)@.state, old(self)@.pending, capacity),
                scan(self@.state, self@.pending, capacity) == goal,
            decreases self.rx_len - self.rx_scan_pos,
        {
            let ghost state = self@.state;
            let ghost pending = self@.pending;
            let byte: u8 = self.rx_buffer[self.rx_scan_pos];
            self.rx_scan_pos += 1;
            proof {
                assert(pending[0] == byte);
                assert(self@.pending =~= pending.skip(1));
            }
            match self.state {
                ParserState::WaitingForSof => {
                    if byte == SOF {
                        self.state = ParserState::Receiving;
                        self.frame_len = 0;
                        self.is_escaping = false;
                        proof {
                            assert(self.frame_buffer@.subrange(0, 0) =~= Seq::<u8>::empty());
                        }
                    }
                },
                ParserState::Receiving => {
                    if byte == SOF {
                        self.frame_len = 0;
                        self.is_escaping = false;
                        proof {
                            assert(self.frame_buffer@.subrange(0, 0) =~= Seq::<u8>::empty());
                        }
                    } else if byte == EOF {
                        self.state = ParserState::WaitingForSof;
                        if self.is_escaping {
                            self.is_escaping = false;
                            return Some(Err(DecodeError::InvalidEscapeSequence));
                        }
                        let decoded = Frame::decode(
                            slice_subrange(self.frame_buffer, 0, self.frame_len),
                        );
                        return Some(decoded);
                    } else if byte == ESC {
                        if self.is_escaping {
                            self.state = ParserState::WaitingForSof;
                            return Some(Err(DecodeError::InvalidEscapeSequence));
                        }
                        self.is_escaping = true;
                    } else {
                        if self.frame_len >= self.frame_buffer.len() {
                            self.state = ParserState::WaitingForSof;
                            return Some(Err(DecodeError::FrameBufferTooSmall));
                        }
                        let ghost frame = self.frame_buffer@.subrange(0, self.frame_len as int);
                        if self.is_escaping {
                            self.frame_buffer[self.frame_len] = byte ^ ESC_XOR;
                            self.is_escaping = false;
                        } else {
                            self.frame_buffer[self.frame_len] = byte;
                        }
                        self.frame_len += 1;
                        proof {
                            assert(self.frame_buffer@.subrange(0, self.frame_len as int)
                                =~= frame.push(self.frame_buffer@[self.frame_len - 1]));
                        }
                    }
                },
            }
        }
        None
    }

    /// Discards the scanned bytes at the front of the receive buffer and moves
    /// the unscanned bytes there, so that their room can be written again.
    pub fn consume_rx_buffer(&mut self)
        ensures
            final(self)@ == old(self)@,
            final(self).rx_capacity() == old(self).rx_capacity(),
            final(self).frame_capacity() == old(self).frame_capacity(),
            final(self).consumed() == 0,
    {
        self.compact();
    }

    fn compact(&mut self)
        ensures
            final(self)@ == old(self)@,
            final(self).rx_buffer@.len() == old(self).rx_buffer@.len(),
            final(self).rx_scan_pos == 0,
            final(self).rx_len == old(self).rx_len - old(self).rx_scan_pos,
            final(self).frame_buffer@ == old(self).frame_buffer@,
            final(self).frame_len == old(self).frame_len,
            final(self).state == old(self).state,
            final(self).is_escaping == old(self).is_escaping,
    {
        proof {
            use_type_invariant(&*self);
        }
        if self.rx_scan_pos > 0 {
            let ghost before = self.rx_buffer@;
            let offset: usize = self.rx_scan_pos;
            let remaining: usize = self.rx_len - self.rx_scan_pos;
            let mut i: usize = 0;
            while i < remaining
                invariant
                    i <= remaining,
                    offset + remaining == self.rx_len,
                    self.rx_len <= self.rx_buffer@.len(),
                    self.rx_buffer@.len() == before.len(),
                    self.rx_scan_pos == offset,
                    self.rx_len == old(self).rx_len,
                    self.frame_buffer@ == old(self).frame_buffer@,
                    self.frame_len == old(self).frame_len,
                    self.state == old(self).state,
                    self.is_escaping == old(self).is_escaping,
                    self.frame_len <= self.frame_buffer@.len(),
                    forall|j: int| 0 <= j < i ==> self.rx_buffer@[j] == before[offset + j],
                    forall|j: int| i <= j < before.len() ==> self.rx_buffer@[j] == before[j],
                decreases remaining - i,
            {
                let byte: u8 = self.rx_buffer[offset + i];
                self.rx_buffer[i] = byte;
                i += 1;
            }
            self.rx_scan_pos = 0;
            self.rx_len = remaining;
            proof {
                assert(self@.pending =~= old(self)@.pending);
            }
        }
    }
}

} // verus!
