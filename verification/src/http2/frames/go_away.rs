//! GOAWAY frames (RFC 9113 6.8) and the error codes of RFC 9113 7.
use vstd::prelude::*;

use crate::http2::response::ResponseSerialize;
use crate::wire::{be_value, copy_range, push_all, push_u32_be, read_u32_be, u32_be};

use super::frame::{FrameError, FRAME_HEADER_LENGTH};

verus! {

/// The error codes of RFC 9113 7.
#[derive(Debug, Clone, Copy, PartialEq, Eq, Structural)]
pub enum ErrorType {
    NoError,
    ProtocolError,
    InternalError,
    FlowControlError,
    SettingsTimeout,
    StreamClosed,
    FrameSizeError,
    RefusedStream,
    Cancel,
    CompressionError,
    ConnectError,
    EnhanceYourCalm,
    IndequateSecurity,
    Http11Required,
}

/// The error type of a code; codes above 13 are taken as `InternalError`.
pub open spec fn error_type_of(value: u32) -> ErrorType {
    match value {
        0 => ErrorType::NoError,
        1 => ErrorType::ProtocolError,
        2 => ErrorType::InternalError,
        3 => ErrorType::FlowControlError,
        4 => ErrorType::SettingsTimeout,
        5 => ErrorType::StreamClosed,
        6 => ErrorType::FrameSizeError,
        7 => ErrorType::RefusedStream,
        8 => ErrorType::Cancel,
        9 => ErrorType::CompressionError,
        10 => ErrorType::ConnectError,
        11 => ErrorType::EnhanceYourCalm,
        12 => ErrorType::IndequateSecurity,
        13 => ErrorType::Http11Required,
        _ => ErrorType::InternalError,
    }
}

impl ErrorType {
    /// The code written on the wire.
    pub open spec fn spec_code(self) -> u32 {
        match self {
            ErrorType::NoError => 0,
            ErrorType::ProtocolError => 1,
            ErrorType::InternalError => 2,
            ErrorType::FlowControlError => 3,
            ErrorType::SettingsTimeout => 4,
            ErrorType::StreamClosed => 5,
            ErrorType::FrameSizeError => 6,
            ErrorType::RefusedStream => 7,
            ErrorType::Cancel => 8,
            ErrorType::CompressionError => 9,
            ErrorType::ConnectError => 10,
            ErrorType::EnhanceYourCalm => 11,
            ErrorType::IndequateSecurity => 12,
            ErrorType::Http11Required => 13,
        }
    }

    /// The code written on the wire.
    pub fn code(self) -> (r: u32)
        ensures
            r == self.spec_code(),
    {
        match self {
            ErrorType::NoError => 0,
            ErrorType::ProtocolError => 1,
            ErrorType::InternalError => 2,
            ErrorType::FlowControlError => 3,
            ErrorType::SettingsTimeout => 4,
            ErrorType::StreamClosed => 5,
            ErrorType::FrameSizeError => 6,
            ErrorType::RefusedStream => 7,
            ErrorType::Cancel => 8,
            ErrorType::CompressionError => 9,
            ErrorType::ConnectError => 10,
            ErrorType::EnhanceYourCalm => 11,
            ErrorType::IndequateSecurity => 12,
            ErrorType::Http11Required => 13,
        }
    }

    /// The error type's name, as it is displayed.
    pub open spec fn spec_name(self) -> Seq<char> {
        match self {
            ErrorType::NoError => "NoError"@,
            ErrorType::ProtocolError => "ProtocolError"@,
            ErrorType::InternalError => "InternalError"@,
            ErrorType::FlowControlError => "FlowControlError"@,
            ErrorType::SettingsTimeout => "SettingsTimeout"@,
            ErrorType::StreamClosed => "StreamClosed"@,
            ErrorType::FrameSizeError => "FrameSizeError"@,
            ErrorType::RefusedStream => "RefusedStream"@,
            ErrorType::Cancel => "Cancel"@,
            ErrorType::CompressionError => "CompressionError"@,
            ErrorType::ConnectError => "ConnectError"@,
            ErrorType::EnhanceYourCalm => "EnhanceYourCalm"@,
            ErrorType::IndequateSecurity => "IndequateSecurity"@,
            ErrorType::Http11Required => "Http11Required"@,
        }
    }

    /// The error type's name, as it is displayed.
    pub fn name(&self) -> (r: &'static str)
        ensures
            r@ == self.spec_name(),
            vstd::string::is_ascii(r),
    {
        match self {
            ErrorType::NoError => {
                proof { reveal_strlit("NoError"); }
                "NoError"
            },
            ErrorType::ProtocolError => {
                proof { reveal_strlit("ProtocolError"); }
                "ProtocolError"
            },
            ErrorType::InternalError => {
                proof { reveal_strlit("InternalError"); }
                "InternalError"
            },
            ErrorType::FlowControlError => {
                proof { reveal_strlit("FlowControlError"); }
                "FlowControlError"
            },
            ErrorType::SettingsTimeout => {
                proof { reveal_strlit("SettingsTimeout"); }
                "SettingsTimeout"
            },
            ErrorType::StreamClosed => {
                proof { reveal_strlit("StreamClosed"); }
                "StreamClosed"
            },
            ErrorType::FrameSizeError => {
                proof { reveal_strlit("FrameSizeError"); }
                "FrameSizeError"
            },
            ErrorType::RefusedStream => {
                proof { reveal_strlit("RefusedStream"); }
                "RefusedStream"
            },
            ErrorType::Cancel => {
                proof { reveal_strlit("Cancel"); }
                "Cancel"
            },
            ErrorType::CompressionError => {
                proof { reveal_strlit("CompressionError"); }
                "CompressionError"
            },
            ErrorType::ConnectError => {
                proof { reveal_strlit("ConnectError"); }
                "ConnectError"
            },
            ErrorType::EnhanceYourCalm => {
                proof { reveal_strlit("EnhanceYourCalm"); }
                "EnhanceYourCalm"
            },
            ErrorType::IndequateSecurity => {
                proof { reveal_strlit("IndequateSecurity"); }
                "IndequateSecurity"
            },
            ErrorType::Http11Required => {
                proof { reveal_strlit("Http11Required"); }
                "Http11Required"
            },
        }
    }
}

impl From<u32> for ErrorType {
    fn from(value: u32) -> (r: ErrorType) {
        match value {
            0 => ErrorType::NoError,
            1 => ErrorType::ProtocolError,
            2 => ErrorType::InternalError,
            3 => ErrorType::FlowControlError,
            4 => ErrorType::SettingsTimeout,
            5 => ErrorType::StreamClosed,
            6 => ErrorType::FrameSizeError,
            7 => ErrorType::RefusedStream,
            8 => ErrorType::Cancel,
            9 => ErrorType::CompressionError,
            10 => ErrorType::ConnectError,
            11 => ErrorType::EnhanceYourCalm,
            12 => ErrorType::IndequateSecurity,
            13 => ErrorType::Http11Required,
            _ => ErrorType::InternalError,
        }
    }
}

impl vstd::std_specs::convert::FromSpecImpl<u32> for ErrorType {
    open spec fn obeys_from_spec() -> bool {
        true
    }

    open spec fn from_spec(value: u32) -> ErrorType {
        error_type_of(value)
    }
}

impl From<ErrorType> for u32 {
    fn from(value: ErrorType) -> (r: u32) {
        value.code()
    }
}

impl vstd::std_specs::convert::FromSpecImpl<ErrorType> for u32 {
    open spec fn obeys_from_spec() -> bool {
        true
    }

    open spec fn from_spec(value: ErrorType) -> u32 {
        value.spec_code()
    }
}

/// Taking an error type to its code and back gives the same error type.
pub proof fn lemma_error_type_code_roundtrip(e: ErrorType)
    ensures
        error_type_of(e.spec_code()) == e,
{
}

/// A GOAWAY frame: the error, the last stream the sender processed, and
/// free-form debug data.
#[derive(Debug, Clone)]
pub struct GoAway {
    kind: ErrorType,
    last_stream_id: u32,
    pub additionnal_data: Vec<u8>,
}

impl GoAway {
    /// The error carried.
    pub closed spec fn spec_kind(&self) -> ErrorType {
        self.kind
    }

    /// The last stream identifier carried.
    pub closed spec fn spec_last_stream_id(&self) -> u32 {
        self.last_stream_id
    }

    /// The debug data carried.
    pub closed spec fn spec_data(&self) -> Seq<u8> {
        self.additionnal_data@
    }

    pub fn new(kind: ErrorType, last_stream_id: u32, additionnal_data: Vec<u8>) -> (r: Self)
        ensures
            r.spec_kind() == kind,
            r.spec_last_stream_id() == last_stream_id,
            r.spec_data() == additionnal_data@,
    {
        Self { kind, last_stream_id, additionnal_data }
    }

    /// Reads a GOAWAY payload of announced `length`: `BadFrameSize` when fewer
    /// than `length` bytes are there; else the last stream identifier (bytes
    /// 0..4), the error code (bytes 4..8, unknown codes as `InternalError`) and
    /// the debug data (bytes 8..length). (With at least `length` bytes and
    /// `length` below 8, the reads would go past the end or run backwards;
    /// `requires` leaves that out.)
    pub fn from_bytes(data: &[u8], length: usize) -> (r: Result<Self, FrameError>)
        requires
            data@.len() < length || length >= 8,
        ensures
            data@.len() < length ==> r == Err::<GoAway, FrameError>(FrameError::BadFrameSize(data@.len() as usize)),
            data@.len() >= length ==> (r matches Ok(g) && g.spec_last_stream_id() == be_value(
                data@.subrange(0, 4),
            ) && g.spec_kind() == error_type_of(be_value(data@.subrange(4, 8)) as u32) && g.spec_data()
                == data@.subrange(8, length as int)),
    {
        if data.len() < length {
            return Err(FrameError::BadFrameSize(data.len()));
        }
        let last_stream_id = read_u32_be(data, 0);
        let kind = ErrorType::from(read_u32_be(data, 4));
        let additionnal_data = copy_range(data, 8, length);
        Ok(Self { kind, last_stream_id, additionnal_data })
    }

    /// Whether the GOAWAY reports an error, that is, its code is not `NoError`.
    pub fn is_error(&self) -> (r: bool)
        ensures
            r == (self.spec_kind() != ErrorType::NoError),
    {
        !matches!(self.kind, ErrorType::NoError)
    }
}

impl ResponseSerialize for GoAway {
    open spec fn is_payload(&self, payload: Seq<u8>) -> bool {
        payload == u32_be(self.spec_last_stream_id()) + u32_be(self.spec_kind().spec_code())
            + self.spec_data()
    }

    /// The whole frame's length, header included.
    open spec fn is_frame_length(&self, n: u32) -> bool {
        n == (FRAME_HEADER_LENGTH + 8 + self.spec_data().len()) as u32
    }

    open spec fn needs_encoder(&self) -> bool {
        false
    }

    open spec fn spec_flags(&self) -> u8 {
        0
    }

    fn serialize_response(&self, encoder: Option<&mut fluke_hpack::Encoder>) -> (r: Vec<u8>) {
        let mut result: Vec<u8> = Vec::new();
        push_u32_be(&mut result, self.last_stream_id);
        push_u32_be(&mut result, self.kind.code());
        push_all(&mut result, self.additionnal_data.as_slice());
        result
    }

    fn compute_frame_length(&self, encoder: Option<&mut fluke_hpack::Encoder>) -> (r: u32) {
        let n = self.additionnal_data.len() as u128;
        (FRAME_HEADER_LENGTH as u128 + 8 + n) as u32
    }

    fn get_flags(&self) -> (r: u8) {
        0
    }
}

/// Reading back a written GOAWAY payload, with its length announced, gives the
/// same last stream identifier, error and debug data.
pub proof fn lemma_go_away_roundtrip(g: GoAway, payload: Seq<u8>)
    requires
        g.is_payload(payload),
    ensures
        payload.len() >= 8,
        be_value(payload.subrange(0, 4)) == g.spec_last_stream_id(),
        error_type_of(be_value(payload.subrange(4, 8)) as u32) == g.spec_kind(),
        payload.subrange(8, payload.len() as int) == g.spec_data(),
{
    crate::wire::lemma_u32_be_roundtrip(g.spec_last_stream_id());
    crate::wire::lemma_u32_be_roundtrip(g.spec_kind().spec_code());
    assert(payload.subrange(0, 4) =~= u32_be(g.spec_last_stream_id()));
    assert(payload.subrange(4, 8) =~= u32_be(g.spec_kind().spec_code()));
    assert(payload.subrange(8, payload.len() as int) =~= g.spec_data());
}

} // verus!
