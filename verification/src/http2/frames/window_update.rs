//! WINDOW_UPDATE frames (RFC 9113 6.9).
use vstd::prelude::*;

use crate::wire::{be_value, read_u32_be};

use super::frame::FrameError;

verus! {

/// A WINDOW_UPDATE frame: the window size increment, all 32 bits of the payload.
#[derive(Debug)]
pub struct WindowUpdate(pub u32);

impl WindowUpdate {
    /// Reads a WINDOW_UPDATE payload of announced `length`: `BadFrameSize`
    /// when fewer than `length` bytes are there, else the first 4 bytes,
    /// big-endian. (With at least `length` bytes but fewer than 4, reading the
    /// increment would index past the end; `requires` leaves that out.)
    pub fn from_bytes(value: &[u8], length: usize) -> (r: Result<Self, FrameError>)
        requires
            value@.len() < length || value@.len() >= 4,
        ensures
            value@.len() < length ==> r == Err::<WindowUpdate, FrameError>(FrameError::BadFrameSize(value@.len() as usize)),
            value@.len() >= length ==> r == Ok::<WindowUpdate, FrameError>(
                WindowUpdate(be_value(value@.subrange(0, 4)) as u32),
            ),
    {
        if value.len() < length {
            return Err(FrameError::BadFrameSize(value.len()));
        }
        Ok(Self(read_u32_be(value, 0)))
    }
}

} // verus!
