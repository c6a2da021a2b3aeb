//! Framing: each payload travels behind its length, a four-byte
//! little-endian number. A reader refuses a frame longer than
//! `MAX_MESSAGE_SIZE` before it reads any of it.

use crate::wire::{put_u32, read_u32, ser_u32, u32_at};
use vstd::prelude::*;

verus! {

/// The longest payload that a reader accepts: 16 MiB.
pub const MAX_MESSAGE_SIZE: u32 = 0x100_0000;

/// Why a frame was refused.
#[derive(Clone, Copy, Debug, PartialEq, Eq, Structural)]
pub enum FrameError {
    /// The length does not fit the ceiling (for a reader) or the four
    /// bytes of the length (for a writer).
    TooLarge,
}

/// What is known of the first frame in a buffer.
#[derive(Clone, Debug, PartialEq, Eq)]
pub enum FrameStep {
    /// The frame is not all there: at least `missing` more bytes are
    /// needed before anything can be said.
    Incomplete { missing: usize },
    /// The first `consumed` bytes are a frame with this payload.
    Frame { payload: Vec<u8>, consumed: usize },
    /// The frame announces `size` bytes, more than the ceiling.
    TooLarge { size: u32 },
}

/// View of [`FrameStep`].
pub enum FrameStepView {
    Incomplete { missing: int },
    Frame { payload: Seq<u8>, consumed: int },
    TooLarge { size: u32 },
}

impl View for FrameStep {
    type V = FrameStepView;

    open spec fn view(&self) -> FrameStepView {
        match *self {
            FrameStep::Incomplete { missing } => FrameStepView::Incomplete {
                missing: missing as int,
            },
            FrameStep::Frame { payload, consumed } => FrameStepView::Frame {
                payload: payload@,
                consumed: consumed as int,
            },
            FrameStep::TooLarge { size } => FrameStepView::TooLarge { size },
        }
    }
}

/// The frame for a payload whose length fits in 32 bits.
pub open spec fn framed(payload: Seq<u8>) -> Seq<u8> {
    ser_u32(payload.len() as u32) + payload
}

/// What the first frame of `s` is.
pub open spec fn first_frame(s: Seq<u8>) -> FrameStepView {
    if s.len() < 4 {
        FrameStepView::Incomplete { missing: 4 - s.len() }
    } else if u32_at(s, 0) > MAX_MESSAGE_SIZE {
        FrameStepView::TooLarge { size: u32_at(s, 0) }
    } else if s.len() - 4 < u32_at(s, 0) {
        FrameStepView::Incomplete { missing: 4 + u32_at(s, 0) - s.len() }
    } else {
        FrameStepView::Frame { payload: s.subrange(4, 4 + u32_at(s, 0)), consumed: 4 + u32_at(s, 0) }
    }
}

/// The frame for `payload`: its length, then the payload itself. A
/// payload whose length does not fit in 32 bits cannot be framed.
pub fn encode_frame(payload: &[u8]) -> (r: Result<Vec<u8>, FrameError>)
    ensures
        r is Ok <==> payload@.len() <= u32::MAX,
        r matches Ok(frame) ==> frame@ == framed(payload@),
{
    if payload.len() > 0xffff_ffff {
        return Err(FrameError::TooLarge);
    }
    let mut out: Vec<u8> = Vec::new();
    put_u32(&mut out, payload.len() as u32);
    let ghost head = out@;
    out.extend_from_slice(payload);
    assert(out@ =~= head + payload@);
    Ok(out)
}

/// The number of payload bytes to read for a frame that announces
/// `header` bytes, or the refusal of a frame over the ceiling.
pub fn frame_length(header: u32) -> (r: Result<usize, FrameError>)
    ensures
        r is Ok <==> header <= MAX_MESSAGE_SIZE,
        r matches Ok(n) ==> n == header,
{
    if header > MAX_MESSAGE_SIZE {
        Err(FrameError::TooLarge)
    } else {
        Ok(header as usize)
    }
}

/// Looks for the first frame in what has been received so far.
pub fn split_frame(input: &[u8]) -> (step: FrameStep)
    ensures
        step@ == first_frame(input@),
{
    match read_u32(input, 0) {
        None => FrameStep::Incomplete { missing: 4 - input.len() },
        Some((size, start)) => {
            match frame_length(size) {
                Err(_) => FrameStep::TooLarge { size },
                Ok(n) => {
                    if input.len() - start < n {
                        FrameStep::Incomplete { missing: n - (input.len() - start) }
                    } else {
                        let payload = vstd::slice::slice_to_vec(
                            vstd::slice::slice_subrange(input, start, start + n),
                        );
                        FrameStep::Frame { payload, consumed: start + n }
                    }
                },
            }
        },
    }
}

/// Whatever follows it, a frame gives its payload back, and says where the
/// next frame begins.
pub proof fn lemma_frame_round_trip(payload: Seq<u8>, rest: Seq<u8>)
    requires
        payload.len() <= MAX_MESSAGE_SIZE,
    ensures
        first_frame(framed(payload) + rest) == (FrameStepView::Frame {
            payload,
            consumed: 4 + payload.len() as int,
        }),
{
    let s = framed(payload) + rest;
    let head = ser_u32(payload.len() as u32);
    crate::wire::lemma_ser_u32_len(payload.len() as u32);
    assert(s.subrange(0, 4 + payload.len() as int) =~= head + payload);
    crate::wire::lemma_holds_at_split(s, 0, head, payload);
    crate::wire::lemma_u32_round_trip(s, 0, payload.len() as u32);
    assert(s.subrange(4, 4 + payload.len() as int) =~= payload);
}

} // verus!
