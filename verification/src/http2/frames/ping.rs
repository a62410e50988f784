//! PING frames (RFC 9113 6.7).
use vstd::prelude::*;

use crate::http2::response::ResponseSerialize;
use crate::wire::{be_value, push_u64_be, read_u64_be, u64_be};

use super::frame::FrameError;

verus! {

/// A PING payload is 8 bytes.
pub const PING_LENGTH: usize = 8;

/// A PING frame: its 8 opaque bytes as a big-endian number, and its ACK flag.
pub struct Ping {
    pub opaque_data: u64,
    pub is_ack: bool,
}

/// Whether a flags byte has its lowest bit (ACK, or END_STREAM) set.
pub open spec fn flag_bit_0(flags: u8) -> bool {
    flags & 0x01u8 > 0
}

impl Ping {
    /// The ping the server would send of its own: opaque data 666, no ACK.
    pub fn default() -> (r: Self)
        ensures
            r.opaque_data == 666,
            !r.is_ack,
    {
        Ping { opaque_data: 666, is_ack: false }
    }

    pub fn new(is_ack: bool, opaque_data: u64) -> (r: Self)
        ensures
            r.is_ack == is_ack,
            r.opaque_data == opaque_data,
    {
        Self { opaque_data, is_ack }
    }

    /// Reads a PING payload: its first 8 bytes, big-endian, and the ACK bit of
    /// `flags`. `BadFrameSize` when fewer than 8 bytes are there.
    pub fn from_bytes(data: &[u8], flags: u8) -> (r: Result<Self, FrameError>)
        ensures
            data@.len() < PING_LENGTH ==> r == Err::<Ping, FrameError>(FrameError::BadFrameSize(data@.len() as usize)),
            data@.len() >= PING_LENGTH ==> r == Ok::<Ping, FrameError>(
                Ping { opaque_data: be_value(data@.subrange(0, 8)) as u64, is_ack: flag_bit_0(flags) },
            ),
    {
        if data.len() < PING_LENGTH {
            return Err(FrameError::BadFrameSize(data.len()));
        }
        Ok(Self { opaque_data: read_u64_be(data, 0), is_ack: flags & 0x01 > 0 })
    }
}

impl ResponseSerialize for Ping {
    open spec fn is_payload(&self, payload: Seq<u8>) -> bool {
        payload == u64_be(self.opaque_data)
    }

    open spec fn is_frame_length(&self, n: u32) -> bool {
        n == PING_LENGTH
    }

    open spec fn needs_encoder(&self) -> bool {
        false
    }

    open spec fn spec_flags(&self) -> u8 {
        if self.is_ack {
            0x01
        } else {
            0x00
        }
    }

    fn serialize_response(&self, encoder: Option<&mut fluke_hpack::Encoder>) -> (r: Vec<u8>) {
        let mut r: Vec<u8> = Vec::new();
        push_u64_be(&mut r, self.opaque_data);
        r
    }

    fn compute_frame_length(&self, encoder: Option<&mut fluke_hpack::Encoder>) -> (r: u32) {
        PING_LENGTH as u32
    }

    fn get_flags(&self) -> (r: u8) {
        if self.is_ack {
            0x01
        } else {
            0x00
        }
    }
}

/// Reading back a written PING payload with the written flags gives the same ping.
pub proof fn lemma_ping_roundtrip(p: Ping, extra: Seq<u8>)
    ensures
        (u64_be(p.opaque_data) + extra).len() >= PING_LENGTH,
        be_value((u64_be(p.opaque_data) + extra).subrange(0, 8)) == p.opaque_data,
        flag_bit_0(p.spec_flags()) == p.is_ack,
{
    crate::wire::lemma_u64_be_roundtrip(p.opaque_data);
    assert((u64_be(p.opaque_data) + extra).subrange(0, 8) =~= u64_be(p.opaque_data));
    assert(0x01u8 & 0x01u8 > 0) by (bit_vector);
    assert(!(0x00u8 & 0x01u8 > 0)) by (bit_vector);
}

} // verus!
