//! Frames: how one message is told from the next on a stream of bytes.
//!
//! A frame is the length of a message (eight bytes, least significant
//! first) followed by the message. A reader collects what it receives in a
//! buffer and takes frames from its front; what one read delivers need not
//! be one message.

use vstd::bytes::*;
use vstd::prelude::*;
use vstd::slice::*;

verus! {

/// The number of bytes that announce a frame's length.
pub const FRAME_HEADER_LEN: usize = 8;

/// The frame that carries `payload`.
pub open spec fn frame_bytes(payload: Seq<u8>) -> Seq<u8> {
    spec_u64_to_le_bytes(payload.len() as u64) + payload
}

/// The length that the first eight bytes of `buffer` announce.
pub open spec fn announced_len(buffer: Seq<u8>) -> int
    recommends
        buffer.len() >= 8,
{
    spec_u64_from_le_bytes(buffer.subrange(0, 8)) as int
}

/// What stands at the front of a buffer.
pub enum FrontView {
    /// Not yet a whole frame: more bytes are needed.
    Incomplete,
    /// A frame that announces more bytes than a buffer can ever hold.
    Oversized,
    /// A whole frame with this payload, and after it these bytes.
    Frame { payload: Seq<u8>, rest: Seq<u8> },
}

/// What stands at the front of `buffer`.
pub open spec fn front(buffer: Seq<u8>) -> FrontView {
    if buffer.len() < 8 {
        FrontView::Incomplete
    } else if announced_len(buffer) > usize::MAX - 8 {
        FrontView::Oversized
    } else if buffer.len() < 8 + announced_len(buffer) {
        FrontView::Incomplete
    } else {
        FrontView::Frame {
            payload: buffer.subrange(8, 8 + announced_len(buffer)),
            rest: buffer.subrange(8 + announced_len(buffer), buffer.len() as int),
        }
    }
}

/// A frame at the front of a buffer is found whole, with its payload, and
/// what follows it is left over.
pub proof fn frame_is_found(payload: Seq<u8>, rest: Seq<u8>)
    requires
        payload.len() + 8 <= usize::MAX,
    ensures
        front(frame_bytes(payload) + rest) == (FrontView::Frame { payload, rest }),
{
    lemma_auto_spec_u64_to_from_le_bytes();
    let n = payload.len() as u64;
    let buffer = frame_bytes(payload) + rest;
    assert(buffer.subrange(0, 8) =~= spec_u64_to_le_bytes(n));
    assert(buffer.subrange(8, 8 + n) =~= payload);
    assert(buffer.subrange(8 + n, buffer.len() as int) =~= rest);
}

/// As long as a frame has not arrived whole, more bytes are needed.
pub proof fn part_of_frame_is_incomplete(payload: Seq<u8>, received: int)
    requires
        payload.len() + 8 <= usize::MAX,
        0 <= received < frame_bytes(payload).len(),
    ensures
        front(frame_bytes(payload).take(received)) == FrontView::Incomplete,
{
    lemma_auto_spec_u64_to_from_le_bytes();
    let n = payload.len() as u64;
    let part = frame_bytes(payload).take(received);
    if received >= 8 {
        assert(part.subrange(0, 8) =~= spec_u64_to_le_bytes(n));
    }
}

/// The frame that carries `payload`.
pub fn encode_frame(payload: &[u8]) -> (frame: Vec<u8>)
    ensures
        frame@ == frame_bytes(payload@),
{
    let len: usize = payload.len();
    let mut frame = u64_to_le_bytes(len as u64);
    frame.extend_from_slice(payload);
    frame
}

/// What `take_frame` found at the front of a buffer.
#[derive(Debug, PartialEq, Eq)]
pub enum Front {
    /// Not yet a whole frame: more bytes are needed.
    Incomplete,
    /// A frame that announces more bytes than a buffer can ever hold.
    Oversized,
    /// The payload of the frame that was taken.
    Frame(Vec<u8>),
}

/// Takes the frame at the front of `buffer` out of it, if a whole one is
/// there. Otherwise `buffer` stays as it is.
pub fn take_frame(buffer: &mut Vec<u8>) -> (found: Front)
    ensures
        match front(old(buffer)@) {
            FrontView::Incomplete => found == Front::Incomplete && final(buffer)@ == old(buffer)@,
            FrontView::Oversized => found == Front::Oversized && final(buffer)@ == old(buffer)@,
            FrontView::Frame { payload, rest } => {
                &&& found matches Front::Frame(taken)
                &&& taken@ == payload
                &&& final(buffer)@ == rest
            },
        },
{
    if buffer.len() < FRAME_HEADER_LEN {
        return Front::Incomplete;
    }
    let announced: u64 = u64_from_le_bytes(slice_subrange(buffer.as_slice(), 0, FRAME_HEADER_LEN));
    if announced > (usize::MAX - FRAME_HEADER_LEN) as u64 {
        return Front::Oversized;
    }
    let end: usize = FRAME_HEADER_LEN + announced as usize;
    if buffer.len() < end {
        return Front::Incomplete;
    }
    let rest = buffer.split_off(end);
    let payload = buffer.split_off(FRAME_HEADER_LEN);
    *buffer = rest;
    Front::Frame(payload)
}

} // verus!
