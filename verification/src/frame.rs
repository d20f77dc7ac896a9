//! The frame codec: a payload behind its length.
//!
//! A frame is the payload's length as eight bytes, least significant first,
//! and then the payload. No frame is empty.

use vstd::prelude::*;
use vstd::bytes::*;
use vstd::slice::*;

verus! {

/// The number of bytes that hold a frame's length.
pub const HEADER_LEN: usize = 8;

/// Why no frame was read.
#[derive(Debug, Clone, Copy, PartialEq, Eq, Structural)]
pub enum FrameError {
    /// The length that a header declares is zero.
    EmptyFrame,
    /// The bytes end before the header, or before the payload, is complete.
    ConnectionTerminated,
}

/// The frame that carries `payload`.
pub open spec fn frame_of(payload: Seq<u8>) -> Seq<u8> {
    spec_u64_to_le_bytes(payload.len() as u64) + payload
}

/// The payload length that the header at the start of `bytes` declares.
pub open spec fn declared_length(bytes: Seq<u8>) -> Result<u64, FrameError> {
    if bytes.len() < HEADER_LEN {
        Err(FrameError::ConnectionTerminated)
    } else {
        let length = spec_u64_from_le_bytes(bytes.subrange(0, HEADER_LEN as int));
        if length == 0 {
            Err(FrameError::EmptyFrame)
        } else {
            Ok(length)
        }
    }
}

/// The payload of the frame at the start of `bytes`.
pub open spec fn framed_payload(bytes: Seq<u8>) -> Result<Seq<u8>, FrameError> {
    match declared_length(bytes) {
        Err(e) => Err(e),
        Ok(length) => {
            if bytes.len() - HEADER_LEN < length {
                Err(FrameError::ConnectionTerminated)
            } else {
                Ok(bytes.subrange(HEADER_LEN as int, HEADER_LEN + length))
            }
        },
    }
}

/// Puts `payload` into a frame. Nothing that the protocol sends is empty, so
/// to frame an empty payload is a defect of the caller: it is not admitted.
pub fn encode_frame(payload: &[u8]) -> (frame: Vec<u8>)
    requires
        payload@.len() > 0,
    ensures
        frame@ == frame_of(payload@),
{
    let mut frame = u64_to_le_bytes(payload.len() as u64);
    frame.extend_from_slice(payload);
    frame
}

/// Reads the header at the start of `bytes`. A declared length of zero is
/// refused here, before anything is made of a payload.
pub fn payload_length(bytes: &[u8]) -> (r: Result<u64, FrameError>)
    ensures
        r == declared_length(bytes@),
{
    if bytes.len() < HEADER_LEN {
        return Err(FrameError::ConnectionTerminated);
    }
    let length = u64_from_le_bytes(slice_subrange(bytes, 0, HEADER_LEN));
    if length == 0 {
        Err(FrameError::EmptyFrame)
    } else {
        Ok(length)
    }
}

/// Reads the frame at the start of `bytes` and hands out its payload. Bytes
/// that follow the frame are left alone.
pub fn decode_frame(bytes: &[u8]) -> (r: Result<Vec<u8>, FrameError>)
    ensures
        match r {
            Ok(payload) => framed_payload(bytes@) == Ok::<Seq<u8>, FrameError>(payload@),
            Err(e) => framed_payload(bytes@) == Err::<Seq<u8>, FrameError>(e),
        },
{
    let length = match payload_length(bytes) {
        Ok(length) => length,
        Err(e) => {
            return Err(e);
        },
    };
    let available = bytes.len() - HEADER_LEN;
    if (available as u64) < length {
        return Err(FrameError::ConnectionTerminated);
    }
    Ok(slice_to_vec(slice_subrange(bytes, HEADER_LEN, HEADER_LEN + length as usize)))
}

/// A frame reads back as the payload it was made of, byte for byte, whatever
/// follows it: for every payload that is not empty and whose length a header
/// can hold.
pub proof fn lemma_frame_round_trip(payload: Seq<u8>, rest: Seq<u8>)
    requires
        0 < payload.len() <= u64::MAX,
    ensures
        declared_length(frame_of(payload) + rest) == Ok::<u64, FrameError>(
            payload.len() as u64,
        ),
        framed_payload(frame_of(payload) + rest) == Ok::<Seq<u8>, FrameError>(payload),
        frame_of(payload).len() == HEADER_LEN + payload.len(),
{
    lemma_auto_spec_u64_to_from_le_bytes();
    let header = spec_u64_to_le_bytes(payload.len() as u64);
    let bytes = frame_of(payload) + rest;
    assert(bytes.subrange(0, HEADER_LEN as int) =~= header);
    assert(bytes.subrange(HEADER_LEN as int, HEADER_LEN + payload.len()) =~= payload);
}

/// A frame that declares the length zero is refused, whatever follows the
/// header.
pub proof fn lemma_zero_length_refused(rest: Seq<u8>)
    ensures
        declared_length(spec_u64_to_le_bytes(0) + rest) == Err::<u64, FrameError>(
            FrameError::EmptyFrame,
        ),
        framed_payload(spec_u64_to_le_bytes(0) + rest) == Err::<Seq<u8>, FrameError>(
            FrameError::EmptyFrame,
        ),
{
    lemma_auto_spec_u64_to_from_le_bytes();
    let bytes = spec_u64_to_le_bytes(0) + rest;
    assert(bytes.subrange(0, HEADER_LEN as int) =~= spec_u64_to_le_bytes(0));
}

} // verus!
