//! The 9-byte frame header (RFC 9113 4.1).
use vstd::prelude::*;

use crate::wire::{be_value, read_u24_be, read_u32_be, u24_be, u32_be};

verus! {

/// Every frame begins with a 9-byte header.
pub const FRAME_HEADER_LENGTH: usize = 9;

/// The largest frame payload a peer may announce, 2^24 - 1.
pub const MAX_FRAME_SIZE: u32 = 16777215;

/// The smallest maximum frame size, and the initial one, 2^14.
pub const MIN_FRAME_SIZE: u32 = 16384;

/// Why a frame could not be read.
#[derive(Debug)]
pub enum FrameError {
    /// Fewer bytes are there than the frame needs (the count of those there).
    BadFrameSize(usize),
    /// The frame type is not one of RFC 9113's ten.
    UnknownFrameNumber(u8),
    /// The HPACK decoder refused the header block.
    HpackDecoderError(fluke_hpack::decoder::DecoderError),
    /// A SETTINGS payload whose length is not a multiple of 6.
    SettingsFrameSize(usize),
    /// A flow-control window would go above 2^31 - 1.
    WindowUpdateTooBig,
    /// The announced length is above the maximum frame size.
    FrameTooBig { actual: u32, max_frame_size: u32 },
    /// A decoded header name made of upper-case letters and punctuation only.
    UppercaseHeader,
    /// The header block holds a table size update whose integer is cut short.
    HpackSizeUpdateCutShort,
}

/// The ten frame types of RFC 9113.
#[derive(Debug, Copy, Clone, PartialEq, Eq, Structural)]
pub enum FrameType {
    Data,
    Headers,
    Priority,
    ResetStream,
    Settings,
    PushPromise,
    Ping,
    GoAway,
    WindowUpdate,
    Continuation,
}

/// The frame type of a type code, if it is one of the ten.
pub open spec fn frame_type_of(code: u8) -> Option<FrameType> {
    match code {
        0 => Some(FrameType::Data),
        1 => Some(FrameType::Headers),
        2 => Some(FrameType::Priority),
        3 => Some(FrameType::ResetStream),
        4 => Some(FrameType::Settings),
        5 => Some(FrameType::PushPromise),
        6 => Some(FrameType::Ping),
        7 => Some(FrameType::GoAway),
        8 => Some(FrameType::WindowUpdate),
        9 => Some(FrameType::Continuation),
        _ => None,
    }
}

impl FrameType {
    /// The type code written on the wire.
    pub open spec fn spec_code(self) -> u8 {
        match self {
            FrameType::Data => 0,
            FrameType::Headers => 1,
            FrameType::Priority => 2,
            FrameType::ResetStream => 3,
            FrameType::Settings => 4,
            FrameType::PushPromise => 5,
            FrameType::Ping => 6,
            FrameType::GoAway => 7,
            FrameType::WindowUpdate => 8,
            FrameType::Continuation => 9,
        }
    }

    /// The type code written on the wire.
    pub fn code(self) -> (r: u8)
        ensures
            r == self.spec_code(),
    {
        match self {
            FrameType::Data => 0,
            FrameType::Headers => 1,
            FrameType::Priority => 2,
            FrameType::ResetStream => 3,
            FrameType::Settings => 4,
            FrameType::PushPromise => 5,
            FrameType::Ping => 6,
            FrameType::GoAway => 7,
            FrameType::WindowUpdate => 8,
            FrameType::Continuation => 9,
        }
    }

    /// The frame type of a type code; `UnknownFrameNumber` for any code above 9.
    pub fn try_from(value: u8) -> (r: Result<FrameType, FrameError>)
        ensures
            match frame_type_of(value) {
                Some(t) => r == Ok::<FrameType, FrameError>(t),
                None => r == Err::<FrameType, FrameError>(FrameError::UnknownFrameNumber(value)),
            },
    {
        match value {
            0 => Ok(FrameType::Data),
            1 => Ok(FrameType::Headers),
            2 => Ok(FrameType::Priority),
            3 => Ok(FrameType::ResetStream),
            4 => Ok(FrameType::Settings),
            5 => Ok(FrameType::PushPromise),
            6 => Ok(FrameType::Ping),
            7 => Ok(FrameType::GoAway),
            8 => Ok(FrameType::WindowUpdate),
            9 => Ok(FrameType::Continuation),
            _ => Err(FrameError::UnknownFrameNumber(value)),
        }
    }
}

/// Each known code names the type whose code it is, and each type's code names it back.
pub proof fn lemma_frame_type_code(t: FrameType)
    ensures
        frame_type_of(t.spec_code()) == Some(t),
{
}

/// A frame header.
#[derive(Debug, Clone, Copy)]
pub struct Frame {
    pub length: u32,
    pub frame_type: FrameType,
    pub flags: u8,
    pub stream_identifier: u32,
}

/// The stream identifier of a header: its 31 bits, the reserved bit ignored.
pub open spec fn header_stream_identifier(bytes: Seq<u8>) -> u32 {
    be_value(seq![bytes[5] & 0x7fu8, bytes[6], bytes[7], bytes[8]]) as u32
}

/// The 24-bit length field of a header.
pub open spec fn header_length(bytes: Seq<u8>) -> u32 {
    be_value(bytes.subrange(0, 3)) as u32
}

/// What `Frame::try_from_bytes` gives for `bytes` and a maximum frame size.
pub open spec fn parse_frame_header(bytes: Seq<u8>, max_frame_size: u32) -> Result<Frame, FrameError> {
    if bytes.len() < FRAME_HEADER_LENGTH {
        Err(FrameError::BadFrameSize(bytes.len() as usize))
    } else if header_length(bytes) > max_frame_size {
        Err(FrameError::FrameTooBig { actual: header_length(bytes), max_frame_size })
    } else {
        match frame_type_of(bytes[3]) {
            Some(t) => Ok(
                Frame {
                    length: header_length(bytes),
                    frame_type: t,
                    flags: bytes[4],
                    stream_identifier: header_stream_identifier(bytes),
                },
            ),
            None => Err(FrameError::UnknownFrameNumber(bytes[3])),
        }
    }
}

/// The 9 bytes of a frame header.
pub open spec fn frame_header_bytes(length: u32, frame_type: FrameType, flags: u8, stream_identifier: u32) -> Seq<u8> {
    u24_be(length) + seq![frame_type.spec_code(), flags] + u32_be(stream_identifier)
}

impl Frame {
    /// Reads the frame header at the start of `bytes`. Fails with
    /// `BadFrameSize` below 9 bytes, with `FrameTooBig` when the announced
    /// length is above `max_frame_size`, and with `UnknownFrameNumber` for
    /// a type code above 9, in that order of precedence.
    pub fn try_from_bytes(bytes: &[u8], max_frame_size: u32) -> (r: Result<Self, FrameError>)
        ensures
            r == parse_frame_header(bytes@, max_frame_size),
    {
        if bytes.len() < FRAME_HEADER_LENGTH {
            return Err(FrameError::BadFrameSize(bytes.len()));
        }
        let length = read_u24_be(bytes, 0);
        if length > max_frame_size {
            return Err(FrameError::FrameTooBig { actual: length, max_frame_size });
        }
        let frame_type = bytes[3];
        let flags = bytes[4];
        // The reserved bit in front of the stream identifier is ignored.
        let id_bytes: [u8; 4] = [bytes[5] & 0x7f, bytes[6], bytes[7], bytes[8]];
        let stream_identifier = read_u32_be(&id_bytes, 0);
        proof {
            assert(id_bytes@.subrange(0, 4) =~= seq![bytes@[5] & 0x7fu8, bytes@[6], bytes@[7], bytes@[8]]);
        }
        match FrameType::try_from(frame_type) {
            Ok(t) => Ok(Self { length, frame_type: t, flags, stream_identifier }),
            Err(e) => Err(e),
        }
    }
}

/// Reading back a written header gives the length, type, flags and stream
/// identifier that were written, when the length fits in 24 bits and is not
/// above the maximum frame size, and the identifier fits in 31 bits.
pub proof fn lemma_frame_header_roundtrip(
    length: u32,
    frame_type: FrameType,
    flags: u8,
    stream_identifier: u32,
    max_frame_size: u32,
    rest: Seq<u8>,
)
    requires
        length < 0x100_0000,
        length <= max_frame_size,
        stream_identifier <= 0x7fff_ffff,
    ensures
        parse_frame_header(frame_header_bytes(length, frame_type, flags, stream_identifier) + rest, max_frame_size)
            == Ok::<Frame, FrameError>(
            Frame { length, frame_type, flags, stream_identifier },
        ),
{
    let h = frame_header_bytes(length, frame_type, flags, stream_identifier);
    let b = h + rest;
    crate::wire::lemma_u24_be_roundtrip(length);
    crate::wire::lemma_u32_be_roundtrip(stream_identifier);
    assert(b.subrange(0, 3) =~= u24_be(length));
    let top = (stream_identifier / 0x100_0000) as u8;
    assert(top < 0x80);
    assert(top & 0x7fu8 == top) by (bit_vector)
        requires
            top < 0x80,
    ;
    assert(seq![b[5] & 0x7fu8, b[6], b[7], b[8]] =~= u32_be(stream_identifier));
    lemma_frame_type_code(frame_type);
}

} // verus!
