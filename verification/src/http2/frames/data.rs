//! DATA frames (RFC 9113 6.1).
use vstd::prelude::*;

use crate::http2::response::ResponseSerialize;
use crate::wire::push_all;

verus! {

/// A DATA frame: its payload and flags.
#[derive(Debug)]
pub struct Data {
    payload: Vec<u8>,
    pub flags: u8,
}

impl Data {
    /// The payload carried.
    pub closed spec fn spec_payload(&self) -> Seq<u8> {
        self.payload@
    }

    /// The flags byte.
    pub closed spec fn spec_data_flags(&self) -> u8 {
        self.flags
    }

    /// A DATA frame carrying `payload`, with no flag set.
    pub fn new(payload: Vec<u8>) -> (r: Self)
        ensures
            r.spec_payload() == payload@,
            r.spec_data_flags() == 0,
    {
        Self { payload, flags: 0 }
    }

    pub fn set_flags(&mut self, flags: u8)
        ensures
            final(self).spec_data_flags() == flags,
            final(self).spec_payload() == old(self).spec_payload(),
    {
        self.flags = flags;
    }
}

impl ResponseSerialize for Data {
    open spec fn is_payload(&self, payload: Seq<u8>) -> bool {
        payload == self.spec_payload()
    }

    open spec fn is_frame_length(&self, n: u32) -> bool {
        n == self.spec_payload().len() as u32
    }

    open spec fn needs_encoder(&self) -> bool {
        false
    }

    open spec fn spec_flags(&self) -> u8 {
        self.spec_data_flags()
    }

    fn serialize_response(&self, encoder: Option<&mut fluke_hpack::Encoder>) -> (r: Vec<u8>) {
        let mut r: Vec<u8> = Vec::new();
        push_all(&mut r, self.payload.as_slice());
        r
    }

    fn compute_frame_length(&self, encoder: Option<&mut fluke_hpack::Encoder>) -> (r: u32) {
        self.payload.len() as u32
    }

    fn get_flags(&self) -> (r: u8) {
        self.flags
    }
}

} // verus!
