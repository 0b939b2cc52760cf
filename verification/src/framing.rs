//! Length-prefixed framing of messages on a byte stream.
//!
//! A frame is the payload's length as a 4-byte big-endian number, followed
//! by the payload. Payloads longer than [`MAX_MESSAGE_SIZE`] bytes are
//! refused on both sides.

use vstd::prelude::*;
use crate::endian::{be_bytes, be_value, byte_space, lemma_be_bytes_len, lemma_be_value_of_bytes, push_be, read_be};

verus! {

/// The largest payload, in bytes, that a frame may carry.
pub const MAX_MESSAGE_SIZE: usize = 65536;

/// The length of the prefix that precedes each payload.
pub const FRAME_HEADER_LEN: usize = 4;

/// Why a frame could not be written or read.
#[derive(Debug, Clone, Copy, PartialEq, Eq, Structural)]
pub enum FramingError {
    /// The payload is longer than [`MAX_MESSAGE_SIZE`].
    MessageTooLarge,
    /// The input ends before the frame does.
    Incomplete,
}

/// The frame that carries `payload`.
pub open spec fn spec_frame(payload: Seq<u8>) -> Seq<u8> {
    be_bytes(payload.len(), FRAME_HEADER_LEN as nat) + payload
}

/// The payload length announced by the header at the start of `input`.
pub open spec fn announced_len(input: Seq<u8>) -> nat {
    be_value(input.take(FRAME_HEADER_LEN as int))
}

/// What reading one frame from the start of `input` gives: the payload, or why there is none.
/// Bytes after the frame are left alone.
pub open spec fn spec_read_frame(input: Seq<u8>) -> Result<Seq<u8>, FramingError> {
    if input.len() < FRAME_HEADER_LEN {
        Err(FramingError::Incomplete)
    } else if announced_len(input) > MAX_MESSAGE_SIZE {
        Err(FramingError::MessageTooLarge)
    } else if input.len() < FRAME_HEADER_LEN + announced_len(input) {
        Err(FramingError::Incomplete)
    } else {
        Ok(input.subrange(FRAME_HEADER_LEN as int, FRAME_HEADER_LEN + announced_len(input)))
    }
}

/// A result carrying bytes, taken by its view.
pub open spec fn bytes_result_view(r: Result<Vec<u8>, FramingError>) -> Result<Seq<u8>, FramingError> {
    match r {
        Ok(v) => Ok(v@),
        Err(e) => Err(e),
    }
}

/// Builds the frame that carries `data`, ready to be written to a stream.
/// Data longer than [`MAX_MESSAGE_SIZE`] is refused.
pub fn write_message(data: &[u8]) -> (r: Result<Vec<u8>, FramingError>)
    ensures
        r is Err <==> data@.len() > MAX_MESSAGE_SIZE,
        r matches Err(e) ==> e == FramingError::MessageTooLarge,
        r matches Ok(frame) ==> frame@ == spec_frame(data@),
{
    if data.len() > MAX_MESSAGE_SIZE {
        return Err(FramingError::MessageTooLarge);
    }
    let mut buffer: Vec<u8> = Vec::new();
    push_be(&mut buffer, data.len() as u64, FRAME_HEADER_LEN);
    let mut i: usize = 0;
    while i < data.len()
        invariant
            i <= data@.len(),
            buffer@ == be_bytes(data@.len(), FRAME_HEADER_LEN as nat) + data@.take(i as int),
        decreases data@.len() - i,
    {
        buffer.push(data[i]);
        i = i + 1;
        proof {
            assert(data@.take(i as int) =~= data@.take(i - 1).push(data@[i - 1]));
        }
    }
    proof {
        assert(data@.take(i as int) =~= data@);
    }
    Ok(buffer)
}

/// Decodes a frame header: the announced payload length, or
/// [`FramingError::MessageTooLarge`] when it exceeds [`MAX_MESSAGE_SIZE`].
pub fn frame_payload_len(header: &[u8]) -> (r: Result<usize, FramingError>)
    requires
        header@.len() == FRAME_HEADER_LEN,
    ensures
        r is Ok <==> announced_len(header@) <= MAX_MESSAGE_SIZE,
        r matches Ok(n) ==> n == announced_len(header@),
        r matches Err(e) ==> e == FramingError::MessageTooLarge,
{
    let len = read_be(header, 0, FRAME_HEADER_LEN);
    proof {
        assert(header@.subrange(0, FRAME_HEADER_LEN as int) =~= header@.take(FRAME_HEADER_LEN as int));
    }
    if len > MAX_MESSAGE_SIZE as u64 {
        Err(FramingError::MessageTooLarge)
    } else {
        Ok(len as usize)
    }
}

/// Reads one frame from the start of `input` and returns its payload.
/// Fails with [`FramingError::Incomplete`] when the input ends early, and with
/// [`FramingError::MessageTooLarge`] when the header announces more than
/// [`MAX_MESSAGE_SIZE`] bytes (checked before the payload is looked at).
pub fn read_message(input: &[u8]) -> (r: Result<Vec<u8>, FramingError>)
    ensures
        bytes_result_view(r) == spec_read_frame(input@),
{
    if input.len() < FRAME_HEADER_LEN {
        return Err(FramingError::Incomplete);
    }
    let header = vstd::slice::slice_subrange(input, 0, FRAME_HEADER_LEN);
    proof {
        assert(header@.take(FRAME_HEADER_LEN as int) =~= input@.take(FRAME_HEADER_LEN as int));
    }
    let len = match frame_payload_len(header) {
        Ok(n) => n,
        Err(e) => return Err(e),
    };
    if input.len() - FRAME_HEADER_LEN < len {
        return Err(FramingError::Incomplete);
    }
    let body = vstd::slice::slice_subrange(input, FRAME_HEADER_LEN, FRAME_HEADER_LEN + len);
    Ok(vstd::slice::slice_to_vec(body))
}

/// The frame of a payload is four bytes longer than the payload.
pub proof fn lemma_frame_len(payload: Seq<u8>)
    ensures
        spec_frame(payload).len() == FRAME_HEADER_LEN + payload.len(),
{
    lemma_be_bytes_len(payload.len(), FRAME_HEADER_LEN as nat);
}

/// Reading a frame that was written for a payload of allowed size gives the
/// payload back, whatever follows the frame on the stream.
pub proof fn lemma_read_after_write(payload: Seq<u8>, rest: Seq<u8>)
    requires
        payload.len() <= MAX_MESSAGE_SIZE,
    ensures
        spec_read_frame(spec_frame(payload) + rest) == Ok::<Seq<u8>, FramingError>(payload),
{
    let header = be_bytes(payload.len(), FRAME_HEADER_LEN as nat);
    let input = spec_frame(payload) + rest;
    lemma_be_bytes_len(payload.len(), FRAME_HEADER_LEN as nat);
    reveal_with_fuel(byte_space, 5);
    lemma_be_value_of_bytes(payload.len(), FRAME_HEADER_LEN as nat);
    assert(input.take(FRAME_HEADER_LEN as int) =~= header);
    assert(input.subrange(FRAME_HEADER_LEN as int, FRAME_HEADER_LEN + payload.len()) =~= payload);
}

/// A frame of a payload larger than [`MAX_MESSAGE_SIZE`] is never read back:
/// its header is refused. (Such a frame is never written either.)
pub proof fn lemma_oversized_header_refused(input: Seq<u8>)
    requires
        input.len() >= FRAME_HEADER_LEN,
        announced_len(input) > MAX_MESSAGE_SIZE,
    ensures
        spec_read_frame(input) == Err::<Seq<u8>, FramingError>(FramingError::MessageTooLarge),
{
}

} // verus!
