//! RST_STREAM frames (RFC 9113 6.4).
use vstd::prelude::*;

use crate::http2::response::ResponseSerialize;
use crate::wire::{be_value, push_u32_be, read_u32_be, u32_be};

use super::frame::FrameError;

verus! {

/// A RST_STREAM frame: the error code that ends the stream.
#[derive(Debug)]
pub struct ResetStream {
    pub error_code: u32,
}

impl ResetStream {
    pub fn new(error_code: u32) -> (r: Self)
        ensures
            r.error_code == error_code,
    {
        Self { error_code }
    }

    /// Reads a RST_STREAM payload of announced `length`: `BadFrameSize` when
    /// fewer than `length` bytes are there, else the first 4 bytes as the
    /// error code. (With at least `length` bytes but fewer than 4, reading the
    /// code would index past the end; `requires` leaves that out.)
    pub fn from_bytes(data: &[u8], length: usize) -> (r: Result<Self, FrameError>)
        requires
            data@.len() < length || data@.len() >= 4,
        ensures
            data@.len() < length ==> r == Err::<ResetStream, FrameError>(FrameError::BadFrameSize(data@.len() as usize)),
            data@.len() >= length ==> r == Ok::<ResetStream, FrameError>(
                ResetStream { error_code: be_value(data@.subrange(0, 4)) as u32 },
            ),
    {
        if data.len() < length {
            return Err(FrameError::BadFrameSize(data.len()));
        }
        Ok(Self { error_code: read_u32_be(data, 0) })
    }
}

impl ResponseSerialize for ResetStream {
    open spec fn is_payload(&self, payload: Seq<u8>) -> bool {
        payload == u32_be(self.error_code)
    }

    open spec fn is_frame_length(&self, n: u32) -> bool {
        n == 4
    }

    open spec fn needs_encoder(&self) -> bool {
        false
    }

    open spec fn spec_flags(&self) -> u8 {
        0
    }

    fn serialize_response(&self, encoder: Option<&mut fluke_hpack::Encoder>) -> (r: Vec<u8>) {
        let mut r: Vec<u8> = Vec::new();
        push_u32_be(&mut r, self.error_code);
        r
    }

    fn compute_frame_length(&self, encoder: Option<&mut fluke_hpack::Encoder>) -> (r: u32) {
        4
    }

    fn get_flags(&self) -> (r: u8) {
        0
    }
}

} // verus!
