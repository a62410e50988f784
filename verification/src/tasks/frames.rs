//! Frames as the task-per-stream server reads and writes them.
use vstd::prelude::*;

use crate::http2::frames::headers::{end_headers_flag, padded_flag, priority_flag};
use crate::request::{HttpRequest, RequestError, RequestType};
use crate::wire::{ascii, be_value, copy_range, first_named, pairs_view, push_all, push_u24_be, push_u32_be, read_u16_be, read_u32_be, u24_be, u32_be};

use crate::hpack::{
    check_hpack_block, decoded_by, decoder_after, decoder_state, encoder_table, encoder_table_limit, hpack_block_safe, hpack_encoding,
};

verus! {

/// Every frame begins with a 9-byte header (RFC 9113 4.1).
pub const FRAME_HEADER_SIZE: usize = 9;

/// A PRIORITY payload is 5 bytes.
pub const PRIORITY_FRAME_SIZE: usize = 5;

/// The window every stream and the connection start with, 2^16 - 1.
pub const DEFAULT_WINDOW_SIZE: u32 = 65535;

/// A WINDOW_UPDATE payload is 4 bytes.
pub const WINDOW_UPDATE_LENGTH: u32 = 4;

/// The largest window increment a frame may announce, 2^31 - 1.
pub const MAX_WINDOW_FRAME_ADVERTISEMENT: u32 = 2147483647;

/// Why a frame could not be read.
#[derive(Debug)]
pub enum FrameError {
    UnknownFrame(u8),
    NotEnoughData(usize),
    ReservedBitSet,
    UnknownSettingIdentifier(u16),
    SettingNotStreamZero,
    BadSettingsLength(u32),
    BadPriorityFrameSize(u32),
    PriorityFrameStreamZero,
    BadLengthWindowUpdate(u32),
    WindowUpdateTooBig(u32),
    ContinuationStreamZero,
    HpackDecodeError(fluke_hpack::decoder::DecoderError),
    /// The header block holds a table size update whose integer is cut short.
    HpackSizeUpdateCutShort,
}

/// The ten frame types of RFC 9113.
#[derive(Debug, Copy, Clone, PartialEq, Eq, Structural)]
pub enum FrameType {
    Data,
    Header,
    Priority,
    ResetStream,
    Settings,
    PushPromise,
    Ping,
    GoAway,
    WindowUpdate,
    Continuation,
}

/// The frame type of a type code, if it is one of the ten.
pub open spec fn task_frame_type_of(code: u8) -> Option<FrameType> {
    match code {
        0 => Some(FrameType::Data),
        1 => Some(FrameType::Header),
        2 => Some(FrameType::Priority),
        3 => Some(FrameType::ResetStream),
        4 => Some(FrameType::Settings),
        5 => Some(FrameType::PushPromise),
        6 => Some(FrameType::Ping),
        7 => Some(FrameType::GoAway),
        8 => Some(FrameType::WindowUpdate),
        9 => Some(FrameType::Continuation),
        _ => None,
    }
}

impl FrameType {
    /// The type code written on the wire.
    pub open spec fn spec_code(self) -> u8 {
        match self {
            FrameType::Data => 0,
            FrameType::Header => 1,
            FrameType::Priority => 2,
            FrameType::ResetStream => 3,
            FrameType::Settings => 4,
            FrameType::PushPromise => 5,
            FrameType::Ping => 6,
            FrameType::GoAway => 7,
            FrameType::WindowUpdate => 8,
            FrameType::Continuation => 9,
        }
    }

    /// The type code written on the wire.
    pub fn code(self) -> (r: u8)
        ensures
            r == self.spec_code(),
    {
        match self {
            FrameType::Data => 0,
            FrameType::Header => 1,
            FrameType::Priority => 2,
            FrameType::ResetStream => 3,
            FrameType::Settings => 4,
            FrameType::PushPromise => 5,
            FrameType::Ping => 6,
            FrameType::GoAway => 7,
            FrameType::WindowUpdate => 8,
            FrameType::Continuation => 9,
        }
    }

    /// The frame type of a type code; `UnknownFrame` for any code above 9.
    pub fn try_from(value: u8) -> (r: Result<FrameType, FrameError>)
        ensures
            match task_frame_type_of(value) {
                Some(t) => r == Ok::<FrameType, FrameError>(t),
                None => r == Err::<FrameType, FrameError>(FrameError::UnknownFrame(value)),
            },
    {
        match value {
            0 => Ok(FrameType::Data),
            1 => Ok(FrameType::Header),
            2 => Ok(FrameType::Priority),
            3 => Ok(FrameType::ResetStream),
            4 => Ok(FrameType::Settings),
            5 => Ok(FrameType::PushPromise),
            6 => Ok(FrameType::Ping),
            7 => Ok(FrameType::GoAway),
            8 => Ok(FrameType::WindowUpdate),
            9 => Ok(FrameType::Continuation),
            _ => Err(FrameError::UnknownFrame(value)),
        }
    }

    /// The type frames are given when none is said: DATA.
    pub fn default() -> (r: FrameType)
        ensures
            r == FrameType::Data,
    {
        FrameType::Data
    }
}

/// A frame header.
#[derive(Debug, Clone, Copy, PartialEq, Eq, Structural)]
pub struct Frame {
    pub length: u32,
    pub frame_type: FrameType,
    pub flags: u8,
    pub stream_id: u32,
}

/// What `Frame::try_from` gives for a byte string: `NotEnoughData` below 9
/// bytes, `UnknownFrame` for a type code above 9, `ReservedBitSet` when the
/// reserved bit (0x80 of the identifier's first byte) is set, in that order;
/// else the header, with the stream identifier's 31 bits.
pub open spec fn task_frame_header(bytes: Seq<u8>) -> Result<Frame, FrameError> {
    if bytes.len() < FRAME_HEADER_SIZE {
        Err(FrameError::NotEnoughData(bytes.len() as usize))
    } else {
        match task_frame_type_of(bytes[3]) {
            None => Err(FrameError::UnknownFrame(bytes[3])),
            Some(t) => if bytes[5] & 0x80u8 > 0 {
                Err(FrameError::ReservedBitSet)
            } else {
                Ok(
                    Frame {
                        length: be_value(bytes.subrange(0, 3)) as u32,
                        frame_type: t,
                        flags: bytes[4],
                        stream_id: be_value(bytes.subrange(5, 9)) as u32,
                    },
                )
            },
        }
    }
}

/// The 9 bytes of a frame header.
pub open spec fn task_header_bytes(f: Frame) -> Seq<u8> {
    u24_be(f.length) + seq![f.frame_type.spec_code(), f.flags] + u32_be(f.stream_id)
}

impl Frame {
    /// A header with all fields 0: length 0, DATA, no flags, stream 0.
    pub fn default() -> (r: Frame)
        ensures
            r == (Frame { length: 0, frame_type: FrameType::Data, flags: 0, stream_id: 0 }),
    {
        Frame { length: 0, frame_type: FrameType::Data, flags: 0, stream_id: 0 }
    }

    /// Reads the frame header at the start of `bytes` (see `task_frame_header`).
    pub fn try_from(bytes: &[u8]) -> (r: Result<Self, FrameError>)
        ensures
            r == task_frame_header(bytes@),
    {
        if bytes.len() < FRAME_HEADER_SIZE {
            return Err(FrameError::NotEnoughData(bytes.len()));
        }
        let length = crate::wire::read_u24_be(bytes, 0);
        let frame_type = match FrameType::try_from(bytes[3]) {
            Ok(t) => t,
            Err(e) => {
                return Err(e);
            },
        };
        let flags = bytes[4];
        if bytes[5] & 0x80 > 0 {
            return Err(FrameError::ReservedBitSet);
        }
        let stream_id = read_u32_be(bytes, 5);
        Ok(Self { length, frame_type, flags, stream_id })
    }

    /// The 9 bytes of this header (see `task_header_bytes`); the length is
    /// written in 24 bits.
    pub fn to_bytes(&self) -> (r: Vec<u8>)
        ensures
            r@ == task_header_bytes(*self),
    {
        let mut out: Vec<u8> = Vec::new();
        push_u24_be(&mut out, self.length);
        out.push(self.frame_type.code());
        out.push(self.flags);
        push_u32_be(&mut out, self.stream_id);
        assert(out@ =~= task_header_bytes(*self));
        out
    }
}

/// A frame payload: writing it sets the header's length and flags.
pub trait SerializeFrame {
    /// The flags byte the frame is written with.
    spec fn frame_flags(&self) -> u8;

    /// Whether writing the payload needs an HPACK encoder.
    spec fn needs_encoder(&self) -> bool;

    /// Whether the payload can be written at all.
    spec fn can_serialize(&self) -> bool;

    /// The payload bytes, written with an encoder in the state of `encoder`
    /// (or without one).
    spec fn frame_payload(&self, encoder: Option<fluke_hpack::Encoder>) -> Seq<u8>;

    /// The payload bytes; `frame`'s length becomes their count and its flags
    /// the payload's, its type and stream stay.
    fn serialize_frame(&self, frame: &mut Frame, encoder: Option<&mut fluke_hpack::Encoder>) -> (r: Vec<u8>)
        requires
            self.can_serialize(),
            self.needs_encoder() ==> encoder is Some,
        ensures
            final(frame).length == r@.len() as u32,
            final(frame).flags == self.frame_flags(),
            final(frame).frame_type == old(frame).frame_type,
            final(frame).stream_id == old(frame).stream_id,
            encoder matches Some(e) ==> r@ == self.frame_payload(Some(*e)),
            encoder is None ==> r@ == self.frame_payload(None),
    ;
}

/// The bytes of a frame: its header, with the payload's length and flags, then the payload.
pub fn frame_to_bytes<T: SerializeFrame>(frame: &mut Frame, payload: &T, encoder: Option<&mut fluke_hpack::Encoder>) -> (r: Vec<u8>)
    requires
        payload.can_serialize(),
        payload.needs_encoder() ==> encoder is Some,
    ensures
        encoder matches Some(e) ==> r@ == task_header_bytes(*final(frame)) + payload.frame_payload(Some(*e))
            && final(frame).length == payload.frame_payload(Some(*e)).len() as u32,
        encoder is None ==> r@ == task_header_bytes(*final(frame)) + payload.frame_payload(None)
            && final(frame).length == payload.frame_payload(None).len() as u32,
        final(frame).flags == payload.frame_flags(),
        final(frame).frame_type == old(frame).frame_type,
        final(frame).stream_id == old(frame).stream_id,
{
    let payload_bytes = payload.serialize_frame(frame, encoder);
    let mut bytes = frame.to_bytes();
    push_all(&mut bytes, payload_bytes.as_slice());
    bytes
}

/// Reading back a written header gives the header that was written, when
/// its length fits in 24 bits and its stream identifier in 31 (the
/// reserved bit clear).
pub proof fn lemma_task_header_roundtrip(f: Frame, rest: Seq<u8>)
    requires
        f.length < 0x100_0000,
        f.stream_id <= 0x7fff_ffff,
    ensures
        task_frame_header(task_header_bytes(f) + rest) == Ok::<Frame, FrameError>(f),
{
    let b = task_header_bytes(f) + rest;
    crate::wire::lemma_u24_be_roundtrip(f.length);
    crate::wire::lemma_u32_be_roundtrip(f.stream_id);
    assert(b.subrange(0, 3) =~= u24_be(f.length));
    assert(b.subrange(5, 9) =~= u32_be(f.stream_id));
    let top = (f.stream_id / 0x100_0000) as u8;
    assert(top < 0x80);
    assert(top & 0x80u8 == 0) by (bit_vector)
        requires
            top < 0x80,
    ;
    assert(task_frame_type_of(f.frame_type.spec_code()) == Some(f.frame_type));
}

/// A PRIORITY frame is 5 bytes long and not on stream 0, checked in that order.
pub fn check_check_priority_frame(frame: &Frame) -> (r: Result<(), FrameError>)
    ensures
        frame.length != 5 ==> (r matches Err(FrameError::BadPriorityFrameSize(n)) && n == frame.length),
        frame.length == 5 && frame.stream_id == 0 ==> r matches Err(FrameError::PriorityFrameStreamZero),
        frame.length == 5 && frame.stream_id != 0 ==> r is Ok,
{
    if frame.length != PRIORITY_FRAME_SIZE as u32 {
        return Err(FrameError::BadPriorityFrameSize(frame.length));
    }
    if frame.stream_id == 0 {
        return Err(FrameError::PriorityFrameStreamZero);
    }
    Ok(())
}

/// The settings of RFC 9113 6.5.2.
#[derive(Debug, Clone, Copy, PartialEq, Eq, Structural)]
pub enum SettingType {
    HeaderTableSize,
    EnablePush,
    MaxConcurrentStreams,
    InitialWindowSize,
    MaxFrameSize,
    MaxHeaderListSize,
}

/// The setting a 16-bit identifier names, if it is one of the six.
pub open spec fn setting_type_of(value: u16) -> Option<SettingType> {
    match value {
        1 => Some(SettingType::HeaderTableSize),
        2 => Some(SettingType::EnablePush),
        3 => Some(SettingType::MaxConcurrentStreams),
        4 => Some(SettingType::InitialWindowSize),
        5 => Some(SettingType::MaxFrameSize),
        6 => Some(SettingType::MaxHeaderListSize),
        _ => None,
    }
}

impl SettingType {
    /// The setting of a 16-bit identifier; `UnknownSettingIdentifier` for any other.
    pub fn try_from(value: u16) -> (r: Result<SettingType, FrameError>)
        ensures
            match setting_type_of(value) {
                Some(t) => r == Ok::<SettingType, FrameError>(t),
                None => r == Err::<SettingType, FrameError>(FrameError::UnknownSettingIdentifier(value)),
            },
    {
        match value {
            1 => Ok(SettingType::HeaderTableSize),
            2 => Ok(SettingType::EnablePush),
            3 => Ok(SettingType::MaxConcurrentStreams),
            4 => Ok(SettingType::InitialWindowSize),
            5 => Ok(SettingType::MaxFrameSize),
            6 => Ok(SettingType::MaxHeaderListSize),
            _ => Err(FrameError::UnknownSettingIdentifier(value)),
        }
    }
}

/// The identifier of the 6-byte entry that starts at `at`.
pub open spec fn entry_id(payload: Seq<u8>, at: int) -> u16 {
    be_value(payload.subrange(at, at + 2)) as u16
}

/// The known settings among the first `n` 6-byte entries of `payload`, in order.
pub open spec fn payload_settings(payload: Seq<u8>, n: nat) -> Seq<(SettingType, u32)>
    decreases n,
{
    if n == 0 {
        seq![]
    } else {
        let at = (n - 1) * 6;
        let rest = payload_settings(payload, (n - 1) as nat);
        match setting_type_of(entry_id(payload, at)) {
            Some(t) => rest.push((t, be_value(payload.subrange(at + 2, at + 6)) as u32)),
            None => rest,
        }
    }
}

/// Whether a SETTINGS payload can be cut into entries: whole 6-byte entries,
/// or a last short entry of at least 2 bytes whose identifier is unknown
/// (so it is skipped before its value is read).
pub open spec fn settings_payload_ok(payload: Seq<u8>) -> bool {
    let q = (payload.len() / 6) as int;
    payload.len() % 6 == 0 || (payload.len() % 6 >= 2 && setting_type_of(entry_id(payload, q * 6)) is None)
}

/// A SETTINGS frame: whether it is an acknowledgement, and the settings it carries.
#[derive(Debug)]
pub struct Settings {
    pub is_ack: bool,
    pub settings: Vec<(SettingType, u32)>,
}

impl Settings {
    /// Reads a SETTINGS payload for the header `frame`: `SettingNotStreamZero`
    /// off stream 0, then `BadSettingsLength` when the announced length is not
    /// a multiple of 6; else the known settings of the payload's entries, in
    /// order, and an acknowledgement when the flags are exactly 0x01. (A
    /// payload ending in a short entry with a known identifier, or shorter
    /// than 2 bytes, cannot be read; `requires` leaves it out.)
    pub fn from_payload_bytes(frame: &Frame, payload_bytes: &[u8]) -> (r: Result<Self, FrameError>)
        requires
            (frame.stream_id == 0 && frame.length % 6 == 0) ==> settings_payload_ok(payload_bytes@),
        ensures
            frame.stream_id != 0 ==> r matches Err(FrameError::SettingNotStreamZero),
            frame.stream_id == 0 && frame.length % 6 != 0 ==> (r matches Err(FrameError::BadSettingsLength(n))
                && n == frame.length),
            frame.stream_id == 0 && frame.length % 6 == 0 ==> (r matches Ok(s) && s.is_ack == (frame.flags == 1)
                && s.settings@ == payload_settings(payload_bytes@, (payload_bytes@.len() / 6) as nat)),
    {
        if frame.stream_id != 0 {
            return Err(FrameError::SettingNotStreamZero);
        }
        if frame.length % 6 != 0 {
            return Err(FrameError::BadSettingsLength(frame.length));
        }
        let mut settings: Vec<(SettingType, u32)> = Vec::new();
        let n = payload_bytes.len() / 6;
        let mut k: usize = 0;
        while k < n
            invariant
                k <= n == payload_bytes@.len() / 6,
                settings@ == payload_settings(payload_bytes@, k as nat),
            decreases n - k,
        {
            let len = payload_bytes.len();
            assert(k * 6 + 6 <= len) by (nonlinear_arith)
                requires
                    k < n,
                    n == len / 6,
            ;
            let at = k * 6;
            let id = read_u16_be(payload_bytes, at);
            match SettingType::try_from(id) {
                Ok(kind) => {
                    let value = read_u32_be(payload_bytes, at + 2);
                    settings.push((kind, value));
                },
                Err(_) => {},
            }
            k = k + 1;
        }
        if payload_bytes.len() % 6 != 0 {
            assert(n * 6 + payload_bytes@.len() % 6 == payload_bytes@.len()) by (nonlinear_arith)
                requires
                    n == payload_bytes@.len() / 6,
            ;
            let at = n * 6;
            let id = read_u16_be(payload_bytes, at);
            assert(id == entry_id(payload_bytes@, at as int));
            match SettingType::try_from(id) {
                Ok(_) => {
                    proof {
                        assert(false);
                    }
                },
                Err(_) => {},
            }
        }
        Ok(Settings { is_ack: frame.flags == 0x01, settings })
    }
}

/// A WINDOW_UPDATE frame: its stream and the increment it grants.
#[derive(Debug)]
pub struct WindowUpdate {
    pub stream: u32,
    pub size_increment: u32,
}

impl WindowUpdate {
    /// Reads the 4-byte WINDOW_UPDATE payload `buffer` for the header
    /// `frame`: `BadLengthWindowUpdate` unless the announced length is 4;
    /// else the frame's stream and the increment, all 32 bits. (A `buffer`
    /// not of 4 bytes is left out by `requires`.)
    pub fn parse_frame(frame: &Frame, buffer: &[u8]) -> (r: Result<Self, FrameError>)
        requires
            buffer@.len() == 4,
        ensures
            frame.length != 4 ==> (r matches Err(FrameError::BadLengthWindowUpdate(n)) && n == frame.length),
            frame.length == 4 ==> (r matches Ok(w) && w.stream == frame.stream_id && w.size_increment == be_value(
                buffer@,
            )),
    {
        if frame.length != WINDOW_UPDATE_LENGTH {
            return Err(FrameError::BadLengthWindowUpdate(frame.length));
        }
        if frame.length > MAX_WINDOW_FRAME_ADVERTISEMENT {
            return Err(FrameError::WindowUpdateTooBig(frame.length));
        }
        let size_increment = read_u32_be(buffer, 0);
        assert(buffer@.subrange(0, 4) =~= buffer@);
        Ok(Self { stream: frame.stream_id, size_increment })
    }
}

/// A CONTINUATION frame: its flags and its fragment of the header block.
#[derive(Debug)]
pub struct Continuation {
    pub flags: u8,
    pub data: Vec<u8>,
}

impl Continuation {
    /// The CONTINUATION frame of header `frame` and payload `data`:
    /// `ContinuationStreamZero` on stream 0.
    pub fn from_frame(frame: &Frame, data: Vec<u8>) -> (r: Result<Self, FrameError>)
        ensures
            frame.stream_id == 0 ==> r matches Err(FrameError::ContinuationStreamZero),
            frame.stream_id != 0 ==> (r matches Ok(c) && c.flags == frame.flags && c.data@ == data@),
    {
        if frame.stream_id == 0 {
            return Err(FrameError::ContinuationStreamZero);
        }
        Ok(Self { flags: frame.flags, data })
    }

    /// Whether the header block ends with this fragment (END_HEADERS).
    pub fn has_end_headers(&self) -> (r: bool)
        ensures
            r == end_headers_flag(self.flags),
    {
        self.flags & 0x04 > 0
    }
}

/// A DATA frame: its flags and its bytes.
#[derive(Debug)]
pub struct Data {
    pub flags: u8,
    pub data: Vec<u8>,
}

impl Data {
    /// The DATA frame carrying a response's body, without flags. (A response
    /// without body is left out by `requires`.)
    pub fn from_response(value: crate::response::Response) -> (r: Data)
        requires
            value.body is Some,
        ensures
            r.flags == 0,
            r.data@ == value@.body.unwrap(),
    {
        match value.body {
            Some(b) => Data { flags: 0, data: b },
            None => Data { flags: 0, data: Vec::new() },
        }
    }
}

impl SerializeFrame for Data {
    open spec fn frame_flags(&self) -> u8 {
        self.flags
    }

    open spec fn needs_encoder(&self) -> bool {
        false
    }

    open spec fn can_serialize(&self) -> bool {
        true
    }

    /// The data as it is.
    open spec fn frame_payload(&self, encoder: Option<fluke_hpack::Encoder>) -> Seq<u8> {
        self.data@
    }

    fn serialize_frame(&self, frame: &mut Frame, encoder: Option<&mut fluke_hpack::Encoder>) -> (r: Vec<u8>)
        ensures
            r@ == self.data@,
    {
        let out = copy_range(self.data.as_slice(), 0, self.data.len());
        assert(self.data@.subrange(0, self.data@.len() as int) =~= self.data@);
        frame.length = out.len() as u32;
        frame.flags = self.flags;
        out
    }
}

/// A header block: decoded into a header list, or still partial bytes
/// waiting for CONTINUATION frames.
#[derive(Debug)]
pub enum HeaderStatus {
    Complete(Vec<(Vec<u8>, Vec<u8>)>),
    Partial(Vec<u8>),
}

/// A header block, by value.
pub enum HeaderStatusView {
    Complete(Seq<(Seq<u8>, Seq<u8>)>),
    Partial(Seq<u8>),
}

impl View for HeaderStatus {
    type V = HeaderStatusView;

    open spec fn view(&self) -> HeaderStatusView {
        match self {
            HeaderStatus::Complete(h) => HeaderStatusView::Complete(pairs_view(h@)),
            HeaderStatus::Partial(b) => HeaderStatusView::Partial(b@),
        }
    }
}

/// A HEADERS frame: its flags and its header block.
#[derive(Debug)]
pub struct Headers {
    pub flags: u8,
    pub headers: HeaderStatus,
}

/// Where the header block starts in a HEADERS payload: past the 5 priority
/// bytes when PRIORITY is set.
pub open spec fn payload_offset(flags: u8) -> int {
    if priority_flag(flags) {
        5
    } else {
        0
    }
}

/// Whether a HEADERS payload of header `frame` can be read: not PADDED, and
/// long enough for where its block starts and (with END_HEADERS) ends.
pub open spec fn header_payload_ok(frame: Frame, bytes: Seq<u8>) -> bool {
    &&& !padded_flag(frame.flags)
    &&& payload_offset(frame.flags) <= bytes.len()
    &&& end_headers_flag(frame.flags) ==> payload_offset(frame.flags) <= frame.length <= bytes.len()
}

impl Headers {
    pub fn new(flags: u8, headers: HeaderStatus) -> (r: Self)
        ensures
            r.flags == flags,
            r.headers@ == headers@,
    {
        Self { flags, headers }
    }

    /// Reads a HEADERS payload of header `frame`: with END_HEADERS, its block
    /// (past the priority bytes, up to the announced length) is checked and
    /// decoded: `HpackSizeUpdateCutShort` for a cut-short table size update,
    /// `HpackDecodeError` when the decoder refuses it, else the list that the
    /// decoder's table makes of it; without, the block so far is kept as
    /// partial bytes (from past the priority bytes to the end of the payload).
    /// (PADDED frames, and payloads too short for the offsets, are left out by
    /// `requires`.)
    pub fn parse_header_frame(frame: &Frame, hpack_decoder: &mut fluke_hpack::Decoder, frame_bytes: Vec<u8>) -> (r: Result<Self, FrameError>)
        requires
            header_payload_ok(*frame, frame_bytes@),
        ensures
            end_headers_flag(frame.flags) ==> {
                let block = frame_bytes@.subrange(payload_offset(frame.flags), frame.length as int);
                &&& !hpack_block_safe(block) ==> (r matches Err(FrameError::HpackSizeUpdateCutShort))
                &&& hpack_block_safe(block) ==> match decoded_by(decoder_state(*old(hpack_decoder)), block) {
                    None => r matches Err(FrameError::HpackDecodeError(_)),
                    Some(list) => (r matches Ok(h) && h.flags == frame.flags && h.headers@ == HeaderStatusView::Complete(
                        list,
                    )),
                }
            },
            !end_headers_flag(frame.flags) ==> (r matches Ok(h) && h.flags == frame.flags && h.headers@
                == HeaderStatusView::Partial(frame_bytes@.subrange(payload_offset(frame.flags), frame_bytes@.len() as int))),
            ({
                let block = frame_bytes@.subrange(payload_offset(frame.flags), frame.length as int);
                decoder_state(*final(hpack_decoder)) == if end_headers_flag(frame.flags) && hpack_block_safe(block) {
                    decoder_after(decoder_state(*old(hpack_decoder)), block)
                } else {
                    decoder_state(*old(hpack_decoder))
                }
            }),
    {
        let has_priority = frame.flags & 0x20 > 0;
        let offset: usize = if has_priority {
            5
        } else {
            0
        };
        if frame.flags & 0x04 > 0 {
            let block = vstd::slice::slice_subrange(frame_bytes.as_slice(), offset, frame.length as usize);
            if !check_hpack_block(block) {
                return Err(FrameError::HpackSizeUpdateCutShort);
            }
            match crate::hpack::decode_block(hpack_decoder, block) {
                Ok(list) => Ok(Self { flags: frame.flags, headers: HeaderStatus::Complete(list) }),
                Err(e) => Err(FrameError::HpackDecodeError(e)),
            }
        } else {
            let rest = copy_range(frame_bytes.as_slice(), offset, frame_bytes.len());
            Ok(Self { flags: frame.flags, headers: HeaderStatus::Partial(rest) })
        }
    }

    /// Appends a CONTINUATION fragment to a partial block. (A decoded block
    /// takes no more fragments; `requires` leaves it out.)
    pub fn consume_contination(&mut self, continuation: &Continuation)
        requires
            old(self).headers@ is Partial,
        ensures
            final(self).flags == old(self).flags,
            final(self).headers@ == HeaderStatusView::Partial(
                old(self).headers@->Partial_0 + continuation.data@,
            ),
    {
        match &mut self.headers {
            HeaderStatus::Partial(data) => {
                push_all(data, continuation.data.as_slice());
            },
            HeaderStatus::Complete(_) => {},
        }
    }

    /// Decodes a partial block once all its fragments are there: into the
    /// list that the decoder's table makes of it; `HpackSizeUpdateCutShort`
    /// for a cut-short table size update, `HpackDecodeError` when the decoder
    /// refuses it, the block staying partial on either. (A decoded block is
    /// left out by `requires`.)
    pub fn decode_headers(&mut self, decoder: &mut fluke_hpack::Decoder) -> (r: Result<(), FrameError>)
        requires
            old(self).headers@ is Partial,
        ensures
            final(self).flags == old(self).flags,
            ({
                let block = old(self).headers@->Partial_0;
                &&& !hpack_block_safe(block) ==> ((r matches Err(FrameError::HpackSizeUpdateCutShort))
                    && final(self).headers@ == old(self).headers@)
                &&& hpack_block_safe(block) ==> match decoded_by(decoder_state(*old(decoder)), block) {
                    None => ((r matches Err(FrameError::HpackDecodeError(_))) && final(self).headers@
                        == old(self).headers@),
                    Some(list) => r is Ok && final(self).headers@ == HeaderStatusView::Complete(list),
                }
                &&& decoder_state(*final(decoder)) == if hpack_block_safe(block) {
                    decoder_after(decoder_state(*old(decoder)), block)
                } else {
                    decoder_state(*old(decoder))
                }
            }),
    {
        let decoded = match &self.headers {
            HeaderStatus::Partial(data) => {
                if !check_hpack_block(data.as_slice()) {
                    return Err(FrameError::HpackSizeUpdateCutShort);
                }
                crate::hpack::decode_block(decoder, data.as_slice())
            },
            HeaderStatus::Complete(_) => {
                return Ok(());
            },
        };
        match decoded {
            Ok(list) => {
                self.headers = HeaderStatus::Complete(list);
                Ok(())
            },
            Err(e) => Err(FrameError::HpackDecodeError(e)),
        }
    }

    /// Whether the frame ends the stream (END_STREAM).
    pub fn has_end_stream(&self) -> (r: bool)
        ensures
            r == (self.flags & 0x01u8 > 0),
    {
        self.flags & 0x01 > 0
    }

    /// Whether the frame ends its header block (END_HEADERS).
    pub fn has_end_headers(&self) -> (r: bool)
        ensures
            r == end_headers_flag(self.flags),
    {
        self.flags & 0x04 > 0
    }
}

/// The method a `:method` value names, compared exactly: `GET`, `PUT`,
/// `HEAD`, `DELETE`.
pub open spec fn exact_method(value: Seq<u8>) -> Option<RequestType> {
    if value == ascii("GET"@) {
        Some(RequestType::Get)
    } else if value == ascii("PUT"@) {
        Some(RequestType::Put)
    } else if value == ascii("HEAD"@) {
        Some(RequestType::Head)
    } else if value == ascii("DELETE"@) {
        Some(RequestType::Delete)
    } else {
        None
    }
}

/// The method of a decoded header list: its `:method`, read exactly.
pub open spec fn list_request_type(list: Seq<(Seq<u8>, Seq<u8>)>) -> Option<RequestType> {
    match first_named(list, ascii(":method"@)) {
        Some(v) => exact_method(v),
        None => None,
    }
}

/// Whether `value` is the ASCII string `lit`.
fn is_literal(value: &[u8], lit: &str) -> (r: bool)
    requires
        vstd::string::is_ascii(lit),
    ensures
        r == (value@ == ascii(lit@)),
{
    let bytes = crate::wire::ascii_vec(lit);
    crate::wire::bytes_eq(value, bytes.as_slice())
}

impl HttpRequest for Headers {
    /// The method of a decoded block; none for a partial one.
    open spec fn request_type(&self) -> Option<RequestType> {
        match self.headers@ {
            HeaderStatusView::Complete(list) => list_request_type(list),
            HeaderStatusView::Partial(_) => None,
        }
    }

    /// The `:path` of a decoded block; none for a partial one.
    open spec fn request_uri(&self) -> Option<Seq<u8>> {
        match self.headers@ {
            HeaderStatusView::Complete(list) => first_named(list, ascii(":path"@)),
            HeaderStatusView::Partial(_) => None,
        }
    }

    /// `MalformedRequest` for a block without `:method`, with a method other
    /// than `GET`, `PUT`, `HEAD` and `DELETE` (compared exactly), or still
    /// partial.
    fn get_type(&self) -> (r: Result<RequestType, RequestError<'_>>) {
        proof {
            reveal_strlit(":method");
            reveal_strlit("GET");
            reveal_strlit("PUT");
            reveal_strlit("HEAD");
            reveal_strlit("DELETE");
        }
        let list = match &self.headers {
            HeaderStatus::Complete(list) => list,
            HeaderStatus::Partial(_) => {
                return Err(RequestError::MalformedRequest);
            },
        };
        let name = crate::wire::ascii_vec(":method");
        let i = match crate::wire::find_named(list, name.as_slice()) {
            Some(i) => i,
            None => {
                return Err(RequestError::MalformedRequest);
            },
        };
        let value = list[i].1.as_slice();
        if is_literal(value, "GET") {
            Ok(RequestType::Get)
        } else if is_literal(value, "PUT") {
            Ok(RequestType::Put)
        } else if is_literal(value, "HEAD") {
            Ok(RequestType::Head)
        } else if is_literal(value, "DELETE") {
            Ok(RequestType::Delete)
        } else {
            Err(RequestError::MalformedRequest)
        }
    }

    /// `MalformedRequest` for a block without `:path`, or still partial.
    fn get_uri(&self) -> (r: Result<&[u8], RequestError<'_>>) {
        proof {
            reveal_strlit(":path");
        }
        let list = match &self.headers {
            HeaderStatus::Complete(list) => list,
            HeaderStatus::Partial(_) => {
                return Err(RequestError::MalformedRequest);
            },
        };
        let name = crate::wire::ascii_vec(":path");
        match crate::wire::find_named(list, name.as_slice()) {
            Some(i) => Ok(list[i].1.as_slice()),
            None => Err(RequestError::MalformedRequest),
        }
    }
}

impl SerializeFrame for Headers {
    open spec fn frame_flags(&self) -> u8 {
        self.flags
    }

    open spec fn needs_encoder(&self) -> bool {
        true
    }

    /// Only a decoded block can be encoded.
    open spec fn can_serialize(&self) -> bool {
        self.headers@ is Complete
    }

    /// The HPACK encoding of the header list, from the encoder's table.
    open spec fn frame_payload(&self, encoder: Option<fluke_hpack::Encoder>) -> Seq<u8> {
        match (self.headers@, encoder) {
            (HeaderStatusView::Complete(list), Some(e)) => hpack_encoding(
                encoder_table(e),
                encoder_table_limit(e),
                list,
            ),
            _ => Seq::empty(),
        }
    }

    fn serialize_frame(&self, frame: &mut Frame, encoder: Option<&mut fluke_hpack::Encoder>) -> (r: Vec<u8>) {
        let out = match (&self.headers, encoder) {
            (HeaderStatus::Complete(list), Some(e)) => crate::hpack::encode_headers(e, list),
            _ => Vec::new(),
        };
        frame.flags = self.flags;
        frame.length = out.len() as u32;
        out
    }
}

} // verus!
