//! CONTINUATION frames (RFC 9113 6.10).
use vstd::prelude::*;

use crate::wire::copy_range;

use super::frame::FrameError;
use super::headers::end_headers_flag;

verus! {

/// A CONTINUATION frame: a further fragment of a header block.
#[derive(Debug)]
pub struct Continuation {
    pub headers: Vec<u8>,
    is_end_header: bool,
}

impl Continuation {
    /// The fragment's bytes.
    pub closed spec fn spec_fragment(&self) -> Seq<u8> {
        self.headers@
    }

    /// Whether the header block ends with this fragment.
    pub closed spec fn spec_is_end_header(&self) -> bool {
        self.is_end_header
    }

    /// Reads a CONTINUATION payload of announced `length`: `BadFrameSize` when
    /// fewer bytes are there, else its first `length` bytes, and END_HEADERS
    /// from `flags`.
    pub fn from_bytes(value: &[u8], flags: u8, length: usize) -> (r: Result<Self, FrameError>)
        ensures
            value@.len() < length ==> r == Err::<Continuation, FrameError>(FrameError::BadFrameSize(value@.len() as usize)),
            value@.len() >= length ==> (r matches Ok(c) && c.spec_fragment() == value@.subrange(0, length as int)
                && c.spec_is_end_header() == end_headers_flag(flags)),
    {
        if value.len() < length {
            return Err(FrameError::BadFrameSize(value.len()));
        }
        Ok(Self { is_end_header: flags & 0x04 > 0, headers: copy_range(value, 0, length) })
    }

    /// The fragment's bytes.
    pub fn fragment(&self) -> (r: &[u8])
        ensures
            r@ == self.spec_fragment(),
    {
        self.headers.as_slice()
    }

    /// Whether the header block ends with this fragment.
    pub fn is_end_header(&self) -> (r: bool)
        ensures
            r == self.spec_is_end_header(),
    {
        self.is_end_header
    }
}

} // verus!
