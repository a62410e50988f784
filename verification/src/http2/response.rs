//! Writing a frame: its header, then its payload.
use vstd::prelude::*;

use crate::http2::frames::{frame_header_bytes, FrameType};
use crate::wire::{push_all, push_u24_be, push_u32_be};

verus! {

/// A frame payload that can be written after a frame header.
pub trait ResponseSerialize {
    /// Whether `payload` is a byte string that `serialize_response` may return.
    spec fn is_payload(&self, payload: Seq<u8>) -> bool;

    /// Whether `n` is a value that `compute_frame_length` may return.
    spec fn is_frame_length(&self, n: u32) -> bool;

    /// Whether writing the payload needs an HPACK encoder.
    spec fn needs_encoder(&self) -> bool;

    /// The flags byte of the frame.
    spec fn spec_flags(&self) -> u8;

    /// The payload bytes.
    fn serialize_response(&self, encoder: Option<&mut fluke_hpack::Encoder>) -> (r: Vec<u8>)
        requires
            self.needs_encoder() ==> encoder is Some,
        ensures
            self.is_payload(r@),
    ;

    /// A length that sizes the buffer the frame is written into.
    fn compute_frame_length(&self, encoder: Option<&mut fluke_hpack::Encoder>) -> (r: u32)
        requires
            self.needs_encoder() ==> encoder is Some,
        ensures
            self.is_frame_length(r),
    ;

    /// The flags byte of the frame.
    fn get_flags(&self) -> (r: u8)
        ensures
            r == self.spec_flags(),
    ;
}

/// A whole frame: the 9-byte header announcing `payload`'s length, then `payload`.
pub open spec fn frame_bytes(frame_type: FrameType, flags: u8, stream_identifier: u32, payload: Seq<u8>) -> Seq<u8> {
    frame_header_bytes(payload.len() as u32, frame_type, flags, stream_identifier) + payload
}

/// Appends to `buffer` the frame header of `frame` (its payload length in 24
/// bits, its type, its flags, `stream_identifer`), then its payload.
pub fn build_frame_header<T: ResponseSerialize>(
    buffer: &mut Vec<u8>,
    frame_type: FrameType,
    stream_identifer: u32,
    frame: &T,
    encoder: Option<&mut fluke_hpack::Encoder>,
)
    requires
        frame.needs_encoder() ==> encoder is Some,
    ensures
        exists|payload: Seq<u8>|
            #![trigger frame.is_payload(payload)]
            frame.is_payload(payload) && final(buffer)@ == old(buffer)@ + frame_bytes(
                frame_type,
                frame.spec_flags(),
                stream_identifer,
                payload,
            ),
{
    let payload = frame.serialize_response(encoder);
    push_frame(buffer, frame_type, frame.get_flags(), stream_identifer, payload.as_slice());
}

/// Appends to `buffer` a frame of this type, flags and stream carrying `payload`.
pub fn push_frame(buffer: &mut Vec<u8>, frame_type: FrameType, flags: u8, stream_identifer: u32, payload: &[u8])
    ensures
        final(buffer)@ == old(buffer)@ + frame_bytes(frame_type, flags, stream_identifer, payload@),
{
    push_u24_be(buffer, payload.len() as u32);
    buffer.push(frame_type.code());
    buffer.push(flags);
    push_u32_be(buffer, stream_identifer);
    push_all(buffer, payload);
    assert(buffer@ =~= old(buffer)@ + frame_bytes(frame_type, flags, stream_identifer, payload@));
}

} // verus!
