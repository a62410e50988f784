//! An HTTP/2 connection as a state machine: it reads frames from the bytes
//! received, updates the streams, and says what to send and what to do next.
use vstd::prelude::*;

use crate::http2::frames::frame::header_length;
use crate::http2::frames::headers::{
    decoded_headers, end_headers_flag, has_shouting_name, header_block_of, padded_flag, priority_flag,
};
use crate::hpack::{
    decoder_after, decoder_state, encoded_by, encoder_table, encoder_table_limit, hpack_block_safe,
    hpack_encoding_table, DecoderState,
};
use crate::response::response_header_list;
use crate::http2::frames::ping::flag_bit_0;
use crate::http2::frames::settings::{first_value, setting_entries};
use crate::http2::frames::{
    parse_frame_header, Continuation, ErrorType, Frame, FrameError, FrameType, GoAway, Headers, Ping,
    ResetStream, SettingKind, Settings, WindowUpdate, FRAME_HEADER_LENGTH, MAX_FRAME_SIZE,
    MIN_FRAME_SIZE, PING_LENGTH,
};
use crate::http2::response::{build_frame_header, frame_bytes};
use crate::http2::stream::{
    chunk_size, headers_view, lemma_send_all_ok, send_plan, lemma_send_step_global, lemma_send_step_ok, manager_wf, send_all,
    send_step, sends_safe, stream_send_safe, stream_wf, HeadersView,
    StreamManager, StreamManagerView, StreamView, INITIAL_WINDOW_SIZE, MAX_WINDOW_SIZE,
};
use crate::response::Response;
use crate::wire::{ascii, be_value, u64_be};

pub use crate::http2::{check_connection_preface, starts_with_preface};

verus! {

/// Why a connection ends in error.
#[derive(Debug)]
pub enum ConnectionError {
    MissingContinuationFrame,
    InvalidHeaderFrame(FrameError),
    InvalidContinuationFrame(FrameError),
    InvalidFrame,
    GoAwayOnNonDefaultStream,
    ContinuationFrameWithoutHeaderFrame,
    NonZeroSettingsAckLength,
    SettingsNonDefaultSream,
    SettingsLengthNotMultipleOf6,
    PingOnNon0Stream,
    BadPingFrameSize,
    ZeroWindowUpdate,
    BadLengthWindowUpdate(u32),
    BadLengthPriorityFrame(u32),
    BadRequest,
    BadConnectionPreface,
    WindowUpdateTooBig,
    FrameTooBig { actual: u32, max_frame_size: u32 },
    DataOnStreamZero,
    HeaderOnStreamZero,
    PriorityFrameOnStreamZero,
    InvalidSettingValue(u32),
    BadInitialWindowSize(u32),
}

/// The outcome of connection handling.
pub type ConnectionResult<T> = Result<T, ConnectionError>;

/// The error code a connection error is reported with: FLOW_CONTROL_ERROR for
/// a window grown too big; FRAME_SIZE_ERROR for frames of a wrong size;
/// PROTOCOL_ERROR for any other.
pub open spec fn error_type_for(err: ConnectionError) -> ErrorType {
    match err {
        ConnectionError::WindowUpdateTooBig => ErrorType::FlowControlError,
        ConnectionError::NonZeroSettingsAckLength
        | ConnectionError::BadLengthWindowUpdate(_)
        | ConnectionError::BadPingFrameSize
        | ConnectionError::FrameTooBig { .. }
        | ConnectionError::SettingsLengthNotMultipleOf6 => ErrorType::FrameSizeError,
        _ => ErrorType::ProtocolError,
    }
}

impl From<ConnectionError> for ErrorType {
    fn from(value: ConnectionError) -> (r: ErrorType) {
        match value {
            ConnectionError::WindowUpdateTooBig => ErrorType::FlowControlError,
            ConnectionError::NonZeroSettingsAckLength
            | ConnectionError::BadLengthWindowUpdate(_)
            | ConnectionError::BadPingFrameSize
            | ConnectionError::FrameTooBig { .. }
            | ConnectionError::SettingsLengthNotMultipleOf6 => ErrorType::FrameSizeError,
            _ => ErrorType::ProtocolError,
        }
    }
}

impl vstd::std_specs::convert::FromSpecImpl<ConnectionError> for ErrorType {
    open spec fn obeys_from_spec() -> bool {
        true
    }

    open spec fn from_spec(value: ConnectionError) -> ErrorType {
        error_type_for(value)
    }
}

/// The GOAWAY frame a connection error is answered with: on stream 0, last
/// stream 0, the error's code, and the code's name as debug data.
pub open spec fn go_away_bytes(err: ConnectionError) -> Seq<u8> {
    let e = error_type_for(err);
    frame_bytes(
        FrameType::GoAway,
        0,
        0,
        crate::wire::u32_be(0) + crate::wire::u32_be(e.spec_code()) + ascii(e.spec_name()),
    )
}

/// The bytes of the GOAWAY frame that answers `err`.
pub fn go_away_frame_bytes(err: ConnectionError) -> (r: Vec<u8>)
    ensures
        r@ == go_away_bytes(err),
{
    let ghost e = err;
    let error_type: ErrorType = err.into();
    let name = error_type.name();
    let frame = GoAway::new(error_type, 0, crate::wire::ascii_vec(name));
    let mut buffer: Vec<u8> = Vec::new();
    build_frame_header(&mut buffer, FrameType::GoAway, 0, &frame, None);
    assert(buffer@ =~= go_away_bytes(e));
    buffer
}

/// The RST_STREAM frame that ends stream `stream_id` for `err`.
pub open spec fn reset_stream_bytes(stream_id: u32, err: ConnectionError) -> Seq<u8> {
    frame_bytes(FrameType::ResetStream, 0, stream_id, crate::wire::u32_be(error_type_for(err).spec_code()))
}

/// The bytes of the RST_STREAM frame that ends stream `stream_id` for `err`.
pub fn reset_stream_frame_bytes(stream_id: u32, err: ConnectionError) -> (r: Vec<u8>)
    ensures
        r@ == reset_stream_bytes(stream_id, err),
{
    let ghost e = err;
    let error_type: ErrorType = err.into();
    let frame = ResetStream::new(error_type.into());
    let mut buffer: Vec<u8> = Vec::new();
    build_frame_header(&mut buffer, FrameType::ResetStream, stream_id, &frame, None);
    buffer
}

/// The server's SETTINGS frame, sent first on every connection.
pub open spec fn server_settings_bytes() -> Seq<u8> {
    frame_bytes(
        FrameType::Settings,
        0,
        0,
        crate::http2::frames::settings::settings_bytes(
            seq![
                (crate::http2::frames::SettingKind::MaxConcurrentStreams, 1000u32),
                (crate::http2::frames::SettingKind::InitialWindowSize, 65535u32),
                (crate::http2::frames::SettingKind::MaxHeaderListSize, 100u32),
            ],
        ),
    )
}

/// The bytes of the server's SETTINGS frame.
pub fn server_settings_frame_bytes() -> (r: Vec<u8>)
    ensures
        r@ == server_settings_bytes(),
{
    let settings = Settings::default();
    let mut buffer: Vec<u8> = Vec::new();
    build_frame_header(&mut buffer, FrameType::Settings, 0, &settings, None);
    buffer
}

/// The acknowledgement of a SETTINGS frame.
pub open spec fn settings_ack_bytes() -> Seq<u8> {
    frame_bytes(FrameType::Settings, 0x01, 0, Seq::<u8>::empty())
}

/// The bytes of a SETTINGS acknowledgement.
pub fn settings_ack_frame_bytes() -> (r: Vec<u8>)
    ensures
        r@ == settings_ack_bytes(),
{
    let ack = Settings::new_ack();
    let mut buffer: Vec<u8> = Vec::new();
    build_frame_header(&mut buffer, FrameType::Settings, 0, &ack, None);
    buffer
}


// ---------------------------------------------------------------------------
// The connection state machine.

/// What the caller does after a step.
#[derive(Debug)]
pub enum Next {
    /// Step again at once.
    Continue,
    /// Read more bytes into the buffer (however many, none included), then step again.
    ReadMore,
    /// Read more bytes into the buffer; stop without error if none came, else step again.
    ReadMoreOrStop,
    /// The connection ends without error.
    Stop,
    /// The connection ends with this error.
    Fail(ConnectionError),
    /// The request of this stream is complete: answer it, then step again.
    Respond(u32),
}

/// What a step gives: bytes to send first, then what to do next.
#[derive(Debug)]
pub struct StepOutput {
    pub bytes: Vec<u8>,
    pub next: Next,
}

/// What the connection is in the middle of.
#[derive(Debug)]
pub enum Mode {
    /// Reading frames.
    Frames,
    /// A HEADERS frame (at the front of the buffer) whose payload is not all there.
    HeadersPending(Frame),
    /// Gathering CONTINUATION frames after a HEADERS frame: its header and the block so far.
    Continuation(Frame, Vec<u8>),
}

/// What the connection is in the middle of, by value.
pub enum ModeView {
    Frames,
    HeadersPending(Frame),
    Continuation(Frame, Seq<u8>),
}

/// A connection, by value (the HPACK tables aside).
pub struct ConnView {
    pub streams: StreamManagerView,
    pub max_frame_size: u32,
    pub global: i64,
    pub mode: ModeView,
}

/// A step, by value: the connection after it, how many bytes it took off the
/// front of the buffer, the bytes to send, and what comes next.
pub struct StepView {
    pub conn: ConnView,
    pub consumed: nat,
    pub bytes: Seq<u8>,
    pub next: Next,
}

/// The state of an HTTP/2 connection between the bytes it reads and the bytes it sends.
pub struct ConnectionState {
    decoder: fluke_hpack::Decoder<'static>,
    encoder: fluke_hpack::Encoder<'static>,
    stream_manager: StreamManager,
    max_frame_size: u32,
    global_window_size: i64,
    mode: Mode,
}

impl ConnectionState {
    /// The HPACK encoder of the connection.
    pub closed spec fn hpack_encoder(&self) -> fluke_hpack::Encoder<'static> {
        self.encoder
    }

    /// The state of the connection's HPACK decoder, by value.
    pub closed spec fn hpack_decoder(&self) -> DecoderState {
        decoder_state(self.decoder)
    }
}

impl View for ConnectionState {
    type V = ConnView;

    closed spec fn view(&self) -> ConnView {
        ConnView {
            streams: self.stream_manager@,
            max_frame_size: self.max_frame_size,
            global: self.global_window_size,
            mode: match self.mode {
                Mode::Frames => ModeView::Frames,
                Mode::HeadersPending(f) => ModeView::HeadersPending(f),
                Mode::Continuation(f, b) => ModeView::Continuation(f, b@),
            },
        }
    }
}

/// The connection invariant: the streams are consistent, the connection
/// window is not negative, the maximum frame size is within RFC 9113's
/// bounds, the initial window is between 0 and 2^31 - 1, a HEADERS frame
/// waited on announces at most the largest frame size, and a header block
/// being gathered is one the decoder can be given.
pub open spec fn conn_wf(c: ConnView) -> bool {
    &&& manager_wf(c.streams)
    &&& c.global >= 0
    &&& MIN_FRAME_SIZE <= c.max_frame_size <= MAX_FRAME_SIZE
    &&& 0 <= c.streams.initial_window_size <= MAX_WINDOW_SIZE
    &&& c.mode matches ModeView::HeadersPending(f) ==> f.length <= MAX_FRAME_SIZE
    &&& c.mode matches ModeView::Continuation(f0, block) ==> !padded_flag(f0.flags) && (!priority_flag(f0.flags)
        || block.len() >= 5)
}

/// A fresh stream registered under `sid` (if none is there), with the initial window.
pub open spec fn registered(m: StreamManagerView, sid: u32) -> StreamManagerView {
    StreamManagerView {
        streams: m.streams.insert(
            sid,
            StreamView { id: sid, window: m.initial_window_size, closed: false, request: None, pending: None },
        ),
        order: if m.streams.contains_key(sid) {
            m.order
        } else {
            m.order.push(sid)
        },
        ..m
    }
}

/// Stream `sid` with another window.
pub open spec fn with_window(m: StreamManagerView, sid: u32, window: i64) -> StreamManagerView {
    StreamManagerView { streams: m.streams.insert(sid, StreamView { window, ..m.streams[sid] }), ..m }
}

/// Stream `sid` with a request.
pub open spec fn with_request(m: StreamManagerView, sid: u32, h: HeadersView) -> StreamManagerView {
    StreamManagerView { streams: m.streams.insert(sid, StreamView { request: Some(h), ..m.streams[sid] }), ..m }
}

/// A new initial window: every stream's window becomes `size` minus the old initial window.
pub open spec fn with_initial_window(m: StreamManagerView, size: i64) -> StreamManagerView {
    StreamManagerView {
        streams: m.streams.map_values(|v: StreamView| StreamView { window: (size - m.initial_window_size) as i64, ..v }),
        initial_window_size: size,
        ..m
    }
}

/// Stream `sid` reset (see `Stream::reset`).
pub open spec fn reset_view(m: StreamManagerView, sid: u32) -> StreamManagerView {
    StreamManagerView {
        streams: m.streams.insert(
            sid,
            StreamView {
                window: m.initial_window_size,
                closed: m.streams[sid].closed || m.streams[sid].request.unwrap().1,
                request: None,
                pending: None,
                ..m.streams[sid]
            },
        ),
        ..m
    }
}

/// A step that changes nothing and says what to do next.
pub open spec fn plain(c: ConnView, consumed: nat, bytes: Seq<u8>, next: Next) -> StepView {
    StepView { conn: c, consumed, bytes, next }
}

/// A step that ends the connection with `e`.
pub open spec fn failed(c: ConnView, e: ConnectionError) -> StepView {
    plain(c, 0, seq![], Next::Fail(e))
}

/// The payload bytes received so far, after a frame header.
pub open spec fn after_header(buf: Seq<u8>) -> Seq<u8> {
    buf.subrange(9, buf.len() as int)
}

/// A SETTINGS frame that is not an acknowledgement: checked, applied, and acknowledged.
pub open spec fn settings_step(c: ConnView, f: Frame, p: Seq<u8>) -> StepView {
    let len = f.length as nat;
    if len % 6 != 0 {
        failed(c, ConnectionError::SettingsLengthNotMultipleOf6)
    } else if p.len() < len {
        plain(c, 0, seq![], Next::ReadMore)
    } else {
        let s = setting_entries(p, len / 6);
        let mfs = match first_value(s, SettingKind::MaxFrameSize) {
            Some(v) => v,
            None => MIN_FRAME_SIZE,
        };
        if first_value(s, SettingKind::EnablePush) matches Some(v) && v != 0 && v != 1 {
            failed(c, ConnectionError::InvalidSettingValue(first_value(s, SettingKind::EnablePush).unwrap()))
        } else if !(MIN_FRAME_SIZE <= mfs <= MAX_FRAME_SIZE) {
            failed(c, ConnectionError::InvalidSettingValue(mfs))
        } else {
            let c1 = ConnView { max_frame_size: mfs, ..c };
            match first_value(s, SettingKind::InitialWindowSize) {
                Some(size) => if size > MAX_WINDOW_SIZE {
                    failed(c1, ConnectionError::BadInitialWindowSize(size))
                } else {
                    plain(
                        ConnView { streams: with_initial_window(c.streams, size as i64), ..c1 },
                        9 + len,
                        settings_ack_bytes(),
                        Next::Continue,
                    )
                },
                None => plain(c1, 9 + len, settings_ack_bytes(), Next::Continue),
            }
        }
    }
}

/// The connection window and the streams after the connection-level window
/// grew: every stream with pending bytes is resumed.
pub open spec fn resume_all(c: ConnView, m: StreamManagerView, global: i64, bytes: Seq<u8>) -> StepView {
    let (m2, g2, b2) = send_all(m.streams, m.order, global, c.max_frame_size as usize);
    plain(
        ConnView { streams: StreamManagerView { streams: m2, ..m }, global: g2, ..c },
        13,
        bytes + b2,
        Next::Continue,
    )
}

/// A WINDOW_UPDATE frame of a complete, 4-byte payload with increment `inc`.
pub open spec fn window_update_step(c: ConnView, sid: u32, inc: u32) -> StepView {
    let m = c.streams;
    if m.streams.contains_key(sid) {
        let w = m.streams[sid].window + inc;
        if sid == 0 {
            let g1 = (c.global + inc) as i64;
            if w > MAX_WINDOW_SIZE {
                failed(ConnView { global: g1, ..c }, ConnectionError::WindowUpdateTooBig)
            } else {
                resume_all(c, with_window(m, sid, w as i64), g1, seq![])
            }
        } else if w > MAX_WINDOW_SIZE {
            plain(c, 13, reset_stream_bytes(sid, ConnectionError::WindowUpdateTooBig), Next::Continue)
        } else {
            let m1 = with_window(m, sid, w as i64);
            if m1.streams[sid].pending is Some {
                let (s, g, b) = send_step(m1.streams[sid], c.global, c.max_frame_size as usize);
                plain(
                    ConnView { streams: StreamManagerView { streams: m1.streams.insert(sid, s), ..m1 }, global: g, ..c },
                    13,
                    b,
                    Next::Continue,
                )
            } else {
                plain(ConnView { streams: m1, ..c }, 13, seq![], Next::Continue)
            }
        }
    } else {
        let m1 = registered(m, sid);
        let w = m.initial_window_size + inc;
        if w > MAX_WINDOW_SIZE {
            if sid == 0 {
                failed(ConnView { streams: m1, ..c }, ConnectionError::WindowUpdateTooBig)
            } else {
                plain(
                    ConnView { streams: m1, ..c },
                    13,
                    reset_stream_bytes(sid, ConnectionError::WindowUpdateTooBig),
                    Next::Continue,
                )
            }
        } else if sid == 0 {
            resume_all(c, with_window(m1, sid, w as i64), (c.global + inc) as i64, seq![])
        } else {
            plain(ConnView { streams: with_window(m1, sid, w as i64), ..c }, 13, seq![], Next::Continue)
        }
    }
}

/// A complete request header list on stream `sid`: the stream is registered
/// if it was not, records the request, and the caller is asked to respond.
pub open spec fn deliver(c: ConnView, sid: u32, h: HeadersView, consumed: nat) -> StepView {
    let m1 = if c.streams.streams.contains_key(sid) {
        c.streams
    } else {
        registered(c.streams, sid)
    };
    plain(
        ConnView { streams: with_request(m1, sid, h), mode: ModeView::Frames, ..c },
        consumed,
        seq![],
        Next::Respond(sid),
    )
}

/// In frame mode: what a step does with the buffer `buf`, the HPACK decoder
/// being in state `dec`. A complete HEADERS frame delivers the request that
/// its header block decodes to (`decoded_headers`), or ends the connection.
pub open spec fn frames_step_rel(c: ConnView, dec: DecoderState, buf: Seq<u8>, v: StepView) -> bool {
    match parse_frame_header(buf, c.max_frame_size) {
        Err(FrameError::UnknownFrameNumber(_)) => v == plain(c, header_length(buf) as nat, seq![], Next::ReadMore),
        Err(FrameError::FrameTooBig { actual, max_frame_size }) => v == failed(
            c,
            ConnectionError::FrameTooBig { actual, max_frame_size },
        ),
        Err(_) => v == plain(c, 0, seq![], Next::ReadMoreOrStop),
        Ok(f) => {
            let p = after_header(buf);
            let len = f.length as nat;
            let sid = f.stream_identifier;
            match f.frame_type {
                FrameType::Settings => v == if sid != 0 {
                    failed(c, ConnectionError::SettingsNonDefaultSream)
                } else if flag_bit_0(f.flags) {
                    if len > 0 {
                        failed(c, ConnectionError::NonZeroSettingsAckLength)
                    } else {
                        plain(c, 9, seq![], Next::Continue)
                    }
                } else {
                    settings_step(c, f, p)
                },
                FrameType::WindowUpdate => v == if p.len() < len {
                    plain(c, 0, seq![], Next::ReadMore)
                } else {
                    let inc = be_value(p.subrange(0, 4)) as u32;
                    if inc == 0 {
                        failed(c, ConnectionError::ZeroWindowUpdate)
                    } else if len != 4 {
                        failed(c, ConnectionError::BadLengthWindowUpdate(f.length))
                    } else {
                        window_update_step(c, sid, inc)
                    }
                },
                FrameType::Headers => if sid == 0 {
                    v == failed(c, ConnectionError::HeaderOnStreamZero)
                } else if p.len() < len {
                    v == plain(ConnView { mode: ModeView::HeadersPending(f), ..c }, 0, seq![], Next::ReadMore)
                } else {
                    match decoded_headers(dec, header_block_of(p, f.flags, len), f.flags) {
                        Some(h) => v == deliver(c, sid, h, 9 + len),
                        None => v == failed(c, ConnectionError::InvalidFrame),
                    }
                },
                FrameType::GoAway => v == if p.len() < len {
                    plain(c, 0, seq![], Next::ReadMore)
                } else if sid != 0 {
                    failed(c, ConnectionError::GoAwayOnNonDefaultStream)
                } else {
                    plain(c, 0, seq![], Next::Stop)
                },
                FrameType::Priority => v == if sid == 0 {
                    failed(c, ConnectionError::PriorityFrameOnStreamZero)
                } else if len != 5 {
                    failed(c, ConnectionError::BadLengthPriorityFrame(f.length))
                } else {
                    plain(c, 14, seq![], Next::Continue)
                },
                FrameType::Continuation => v == failed(c, ConnectionError::ContinuationFrameWithoutHeaderFrame),
                FrameType::ResetStream => v == if p.len() < len {
                    plain(c, 0, seq![], Next::ReadMore)
                } else if !c.streams.streams.contains_key(sid) {
                    failed(c, ConnectionError::InvalidFrame)
                } else {
                    plain(ConnView { streams: reset_view(c.streams, sid), ..c }, 13, seq![], Next::Continue)
                },
                FrameType::Data => v == if sid == 0 {
                    failed(c, ConnectionError::DataOnStreamZero)
                } else {
                    plain(c, 9 + len, seq![], Next::Continue)
                },
                FrameType::PushPromise => false,
                FrameType::Ping => v == if sid != 0 {
                    failed(c, ConnectionError::PingOnNon0Stream)
                } else if len != 8 {
                    failed(c, ConnectionError::BadPingFrameSize)
                } else if p.len() < 8 {
                    plain(c, 0, seq![], Next::ReadMore)
                } else if flag_bit_0(f.flags) {
                    plain(c, 17, seq![], Next::Continue)
                } else {
                    plain(c, 17, frame_bytes(FrameType::Ping, 0x01, sid, u64_be(be_value(p.subrange(0, 8)) as u64)), Next::Continue)
                },
            }
        },
    }
}

/// Waiting for the rest of a HEADERS frame `f`, the HPACK decoder being in
/// state `dec`: more bytes are read until it is all there; then either its
/// block decodes and the request is delivered, or decoding fails, which ends
/// the connection when END_HEADERS is set and otherwise starts gathering
/// CONTINUATION frames.
pub open spec fn headers_pending_rel(c: ConnView, dec: DecoderState, f: Frame, buf: Seq<u8>, v: StepView) -> bool {
    let p = after_header(buf);
    let len = f.length as nat;
    if p.len() < len {
        v == plain(c, 0, seq![], Next::ReadMore)
    } else {
        match decoded_headers(dec, header_block_of(p, f.flags, len), f.flags) {
            Some(h) => v == deliver(c, f.stream_identifier, h, 9 + len),
            None => if end_headers_flag(f.flags) {
                v == failed(c, ConnectionError::InvalidFrame)
            } else {
                v == plain(
                    ConnView { mode: ModeView::Continuation(f, p.subrange(0, len as int)), ..c },
                    9 + len,
                    seq![],
                    Next::Continue,
                )
            },
        }
    }
}

/// Gathering CONTINUATION frames after HEADERS frame `f0`: anything but a
/// CONTINUATION frame ends the connection; an incomplete one is looked at
/// again as it is; a complete one adds its fragment, and either asks for more
/// or, with END_HEADERS, decodes the whole block with `f0`'s flags, the
/// HPACK decoder being in state `dec`.
pub open spec fn continuation_rel(c: ConnView, dec: DecoderState, f0: Frame, block: Seq<u8>, buf: Seq<u8>, v: StepView) -> bool {
    match parse_frame_header(buf, c.max_frame_size) {
        Err(_) => v == failed(c, ConnectionError::InvalidFrame),
        Ok(f) => if f.frame_type != FrameType::Continuation {
            v == failed(c, ConnectionError::InvalidFrame)
        } else {
            let p = after_header(buf);
            let len = f.length as nat;
            if p.len() < len {
                v == plain(c, 0, seq![], Next::Continue)
            } else {
                let block2 = block + p.subrange(0, len as int);
                if end_headers_flag(f.flags) {
                    match decoded_headers(dec, header_block_of(block2, f0.flags, block2.len()), f0.flags) {
                        Some(h) => v == deliver(c, f0.stream_identifier, h, 9 + len),
                        None => v == failed(ConnView { mode: ModeView::Continuation(f0, block2), ..c }, ConnectionError::InvalidFrame),
                    }
                } else {
                    v == plain(
                        ConnView { mode: ModeView::Continuation(f0, block2), ..c },
                        9 + len,
                        seq![],
                        Next::ReadMore,
                    )
                }
            }
        },
    }
}

/// The state of a fresh HPACK decoder: an empty table of at most 4096
/// bytes, and no bound on the sizes a block may ask for.
pub open spec fn fresh_decoder_state() -> DecoderState {
    DecoderState { table: Seq::empty(), limit: 4096, cap: None }
}

/// The header block a step on `buf` hands to the HPACK decoder, if any: that
/// of a complete HEADERS frame, in frame mode or once a pending one is all
/// there, or the gathered block once a complete CONTINUATION frame ends it.
/// (A block with a cut-short table size update is refused before the
/// decoder sees it.)
pub open spec fn step_block(c: ConnView, buf: Seq<u8>) -> Option<Seq<u8>> {
    let p = after_header(buf);
    match c.mode {
        ModeView::Frames => match parse_frame_header(buf, c.max_frame_size) {
            Ok(f) => if f.frame_type == FrameType::Headers && f.stream_identifier != 0 && p.len() >= f.length {
                Some(header_block_of(p, f.flags, f.length as nat))
            } else {
                None
            },
            Err(_) => None,
        },
        ModeView::HeadersPending(f) => if p.len() >= f.length {
            Some(header_block_of(p, f.flags, f.length as nat))
        } else {
            None
        },
        ModeView::Continuation(f0, block) => match parse_frame_header(buf, c.max_frame_size) {
            Ok(f) => if f.frame_type == FrameType::Continuation && p.len() >= f.length && end_headers_flag(f.flags) {
                let block2 = block + p.subrange(0, f.length as int);
                Some(header_block_of(block2, f0.flags, block2.len()))
            } else {
                None
            },
            Err(_) => None,
        },
    }
}

/// The HPACK decoder's state after a step on `buf`, from state `dec`: the
/// state after reading the block the step hands it (see `step_block`), or
/// `dec` when it is handed none.
pub open spec fn decoder_after_step(c: ConnView, dec: DecoderState, buf: Seq<u8>) -> DecoderState {
    match step_block(c, buf) {
        Some(b) => if hpack_block_safe(b) {
            decoder_after(dec, b)
        } else {
            dec
        },
        None => dec,
    }
}

/// What a step does with the buffer `buf`, the HPACK decoder being in state `dec`.
pub open spec fn step_rel(c: ConnView, dec: DecoderState, buf: Seq<u8>, v: StepView) -> bool {
    match c.mode {
        ModeView::Frames => frames_step_rel(c, dec, buf, v),
        ModeView::HeadersPending(f) => headers_pending_rel(c, dec, f, buf, v),
        ModeView::Continuation(f0, block) => continuation_rel(c, dec, f0, block, buf, v),
    }
}

/// Whether a WINDOW_UPDATE of `inc` on stream `sid` keeps to the
/// preconditions of what it calls: the stream window stays within `i64`, so
/// does the connection window when `sid` is 0, and the streams it resumes
/// are safe to send from (see `stream_send_safe`).
pub open spec fn window_update_ok(c: ConnView, sid: u32, inc: u32) -> bool {
    let m = c.streams;
    let mfs = c.max_frame_size as usize;
    if m.streams.contains_key(sid) {
        let w = m.streams[sid].window + inc;
        &&& w <= i64::MAX
        &&& sid == 0 ==> c.global + inc <= i64::MAX
        &&& (w <= MAX_WINDOW_SIZE && sid == 0) ==> sends_safe(with_window(m, sid, w as i64).streams, mfs)
        &&& (w <= MAX_WINDOW_SIZE && sid != 0) ==> stream_send_safe(StreamView { window: w as i64, ..m.streams[sid] }, mfs)
    } else {
        sid == 0 ==> c.global + inc <= i64::MAX && sends_safe(m.streams, mfs)
    }
}

/// Whether a complete HEADERS payload can be read: neither PADDED nor, with
/// PRIORITY, shorter than the 5 priority bytes.
pub open spec fn headers_payload_ok(f: Frame, p: Seq<u8>) -> bool {
    p.len() >= f.length ==> !padded_flag(f.flags) && (!priority_flag(f.flags) || f.length >= 5)
}

/// In frame mode: whether a step on `buf` keeps to the preconditions of what
/// it calls (frames it cannot handle, and buffers shorter than what it
/// consumes, are left out).
pub open spec fn frames_step_ok(c: ConnView, buf: Seq<u8>) -> bool {
    match parse_frame_header(buf, c.max_frame_size) {
        Err(FrameError::UnknownFrameNumber(_)) => header_length(buf) <= buf.len(),
        Err(_) => true,
        Ok(f) => {
            let p = after_header(buf);
            let len = f.length as nat;
            let sid = f.stream_identifier;
            match f.frame_type {
                FrameType::WindowUpdate => p.len() >= len ==> p.len() >= 4 && ({
                    let inc = be_value(p.subrange(0, 4)) as u32;
                    (inc != 0 && len == 4) ==> window_update_ok(c, sid, inc)
                }),
                FrameType::Headers => sid != 0 ==> headers_payload_ok(f, p),
                FrameType::GoAway => p.len() >= len ==> len >= 8,
                FrameType::Priority => (sid != 0 && len == 5) ==> buf.len() >= 14,
                FrameType::ResetStream => p.len() >= len ==> p.len() >= 4 && (c.streams.streams.contains_key(sid)
                    ==> c.streams.streams[sid].request is Some),
                FrameType::Data => sid != 0 ==> buf.len() >= 9 + len,
                FrameType::PushPromise => false,
                _ => true,
            }
        },
    }
}

/// Whether a step on `buf` keeps to the preconditions of what it calls.
pub open spec fn step_ok(c: ConnView, buf: Seq<u8>) -> bool {
    match c.mode {
        ModeView::Frames => frames_step_ok(c, buf),
        ModeView::HeadersPending(f) => buf.len() >= 9 && headers_payload_ok(f, after_header(buf)),
        ModeView::Continuation(_, _) => true,
    }
}

/// A step's output and the count of bytes it consumed, by value.
pub open spec fn view_of_step(conn: ConnView, out: StepOutput, consumed: usize) -> StepView {
    StepView { conn, consumed: consumed as nat, bytes: out.bytes@, next: out.next }
}

/// A step that sends nothing, consumes nothing, and says what to do next.
fn wait(next: Next) -> (r: (StepOutput, usize))
    ensures
        r.0.bytes@ == Seq::<u8>::empty(),
        r.0.next == next,
        r.1 == 0,
{
    (StepOutput { bytes: Vec::new(), next }, 0)
}

/// A step that ends the connection with `e`.
fn fail(e: ConnectionError) -> (r: (StepOutput, usize))
    ensures
        r.0.bytes@ == Seq::<u8>::empty(),
        r.0.next == Next::Fail(e),
        r.1 == 0,
{
    wait(Next::Fail(e))
}

impl ConnectionState {
    /// A connection that has just read the preface: no streams, a maximum
    /// frame size of 16384, a connection window of 65535, reading frames.
    pub fn new() -> (r: Self)
        ensures
            conn_wf(r@),
            r@.streams.streams == Map::<u32, StreamView>::empty(),
            r@.streams.order == Seq::<u32>::empty(),
            r@.streams.initial_window_size == INITIAL_WINDOW_SIZE,
            r@.max_frame_size == MIN_FRAME_SIZE,
            r@.global == 65535,
            r@.mode == ModeView::Frames,
            r.hpack_decoder() == fresh_decoder_state(),
            encoder_table(r.hpack_encoder()) == Seq::<(Seq<u8>, Seq<u8>)>::empty(),
            encoder_table_limit(r.hpack_encoder()) == 4096,
    {
        ConnectionState {
            decoder: crate::hpack::new_decoder(),
            encoder: crate::hpack::new_encoder(),
            stream_manager: StreamManager::new(),
            max_frame_size: MIN_FRAME_SIZE,
            global_window_size: 65535,
            mode: Mode::Frames,
        }
    }

    /// Records a decoded request header list on stream `sid` (registering
    /// the stream if need be), back in frame mode, and asks for a response.
    fn deliver_headers(&mut self, sid: u32, h: Headers, consumed: usize) -> (r: (StepOutput, usize))
        requires
            conn_wf(ConnView { mode: ModeView::Frames, ..old(self)@ }),
            !has_shouting_name(h.spec_headers()),
        ensures
            conn_wf(final(self)@),
            r.1 == consumed,
            view_of_step(final(self)@, r.0, r.1) == deliver(old(self)@, sid, headers_view(h), consumed as nat),
            final(self).decoder == old(self).decoder,
            final(self).encoder == old(self).encoder,
    {
        if !self.stream_manager.has_stream(sid) {
            self.stream_manager.register_new_stream(sid);
        }
        self.stream_manager.set_headers_at(sid, h);
        self.mode = Mode::Frames;
        (StepOutput { bytes: Vec::new(), next: Next::Respond(sid) }, consumed)
    }

    /// A SETTINGS frame on stream 0 that is not an acknowledgement, payload `p`.
    fn on_settings(&mut self, f: Frame, p: &[u8]) -> (r: (StepOutput, usize))
        requires
            f.length < 0x100_0000,
            conn_wf(old(self)@),
            old(self)@.mode == ModeView::Frames,
        ensures
            conn_wf(final(self)@),
            r.1 <= 9 + p@.len(),
            view_of_step(final(self)@, r.0, r.1) == settings_step(old(self)@, f, p@),
            final(self).decoder == old(self).decoder,
            final(self).encoder == old(self).encoder,
    {
        let len = f.length as usize;
        let settings = match Settings::from_bytes(p, len) {
            Ok(s) => s,
            Err(FrameError::SettingsFrameSize(_)) => {
                return fail(ConnectionError::SettingsLengthNotMultipleOf6);
            },
            Err(FrameError::BadFrameSize(_)) => {
                return wait(Next::ReadMore);
            },
            Err(_) => {
                return fail(ConnectionError::InvalidFrame);
            },
        };
        let ghost entries = setting_entries(p@, (f.length as nat) / 6);
        assert(settings.spec_settings() == entries);
        if let Some(value) = settings.is_push_enabled() {
            if value != 0 && value != 1 {
                return fail(ConnectionError::InvalidSettingValue(value));
            }
        }
        let setting_frame_size = settings.get_max_frame_size();
        if !(MIN_FRAME_SIZE <= setting_frame_size && setting_frame_size <= MAX_FRAME_SIZE) {
            return fail(ConnectionError::InvalidSettingValue(setting_frame_size));
        }
        self.max_frame_size = setting_frame_size;
        if let Some(size) = settings.get_initial_window_size() {
            if size as i64 > MAX_WINDOW_SIZE {
                return fail(ConnectionError::BadInitialWindowSize(size));
            }
            self.stream_manager.set_initial_window_size(size as i64);
        }
        (StepOutput { bytes: settings_ack_frame_bytes(), next: Next::Continue }, 9 + len)
    }
}

impl ConnectionState {
    /// Resumes every stream with pending bytes, after the connection window grew.
    fn resume_streams(&mut self, bytes: Vec<u8>) -> (r: (StepOutput, usize))
        requires
            conn_wf(old(self)@),
            old(self)@.mode == ModeView::Frames,
            sends_safe(old(self)@.streams.streams, old(self)@.max_frame_size as usize),
        ensures
            conn_wf(final(self)@),
            r.1 == 13,
            view_of_step(final(self)@, r.0, r.1) == resume_all(
                old(self)@,
                old(self)@.streams,
                old(self)@.global,
                bytes@,
            ),
            final(self).decoder == old(self).decoder,
            final(self).encoder == old(self).encoder,
    {
        let ghost m = self@.streams;
        let mfs = self.max_frame_size as usize;
        proof {
            assert forall|i: int|
                0 <= i < m.order.len() && m.streams.contains_key(#[trigger] m.order[i]) implies stream_wf(
                m.streams[m.order[i]],
            ) && stream_send_safe(m.streams[m.order[i]], mfs) by {}
            lemma_send_all_ok(m.streams, m.order, self.global_window_size, mfs);
        }
        let mut global = self.global_window_size;
        let mut sent = self.stream_manager.try_send_data_all_stream(&mut global, mfs);
        self.global_window_size = global;
        let mut out = bytes;
        out.append(&mut sent);
        (StepOutput { bytes: out, next: Next::Continue }, 13)
    }

    /// A WINDOW_UPDATE of `inc` on stream `sid`, its payload complete and 4 bytes long.
    fn apply_window_update(&mut self, sid: u32, inc: u32) -> (r: (StepOutput, usize))
        requires
            conn_wf(old(self)@),
            old(self)@.mode == ModeView::Frames,
            window_update_ok(old(self)@, sid, inc),
        ensures
            conn_wf(final(self)@),
            r.1 <= 13,
            view_of_step(final(self)@, r.0, r.1) == window_update_step(old(self)@, sid, inc),
            final(self).decoder == old(self).decoder,
            final(self).encoder == old(self).encoder,
    {
        let ghost c = self@;
        let mfs = self.max_frame_size as usize;
        if self.stream_manager.has_stream(sid) {
            if sid == 0 {
                self.global_window_size = self.global_window_size + inc as i64;
                match self.stream_manager.update_window_at(0, inc as i64) {
                    Some(Ok(())) => {},
                    _ => {
                        return fail(ConnectionError::WindowUpdateTooBig);
                    },
                }
                proof {
                    assert(self@.streams == with_window(c.streams, sid, (c.streams.streams[sid].window + inc) as i64));
                }
                self.resume_streams(Vec::new())
            } else {
                match self.stream_manager.update_window_at(sid, inc as i64) {
                    Some(Ok(())) => {},
                    _ => {
                        let bytes = reset_stream_frame_bytes(sid, ConnectionError::WindowUpdateTooBig);
                        return (StepOutput { bytes, next: Next::Continue }, 13);
                    },
                }
                let has = match self.stream_manager.get_at(sid) {
                    Some(st) => st.has_data_to_send(),
                    None => false,
                };
                if has {
                    let ghost s1 = self@.streams.streams[sid];
                    proof {
                        lemma_send_step_ok(s1, self.global_window_size, mfs);
                        lemma_send_step_global(s1, self.global_window_size, mfs);
                    }
                    let mut global = self.global_window_size;
                    let bytes = self.stream_manager.try_send_data_at(sid, &mut global, mfs);
                    self.global_window_size = global;
                    (StepOutput { bytes, next: Next::Continue }, 13)
                } else {
                    (StepOutput { bytes: Vec::new(), next: Next::Continue }, 13)
                }
            }
        } else {
            self.stream_manager.register_new_stream(sid);
            match self.stream_manager.update_window_at(sid, inc as i64) {
                Some(Ok(())) => {},
                _ => {
                    if sid == 0 {
                        return fail(ConnectionError::WindowUpdateTooBig);
                    }
                    let bytes = reset_stream_frame_bytes(sid, ConnectionError::WindowUpdateTooBig);
                    return (StepOutput { bytes, next: Next::Continue }, 13);
                },
            }
            if sid == 0 {
                self.global_window_size = self.global_window_size + inc as i64;
                proof {
                    assert(sends_safe(self@.streams.streams, mfs)) by {
                        assert forall|k: u32| #[trigger] self@.streams.streams.contains_key(k) implies stream_send_safe(
                            self@.streams.streams[k],
                            mfs,
                        ) by {
                            if k != sid {
                                assert(c.streams.streams.contains_key(k));
                            }
                        }
                    }
                }
                self.resume_streams(Vec::new())
            } else {
                (StepOutput { bytes: Vec::new(), next: Next::Continue }, 13)
            }
        }
    }
}

impl ConnectionState {
    /// In frame mode: reads the frame at the front of `buf` and acts on it.
    /// Returns what to send and do next, and how many bytes to consume.
    fn step_frames(&mut self, buf: &[u8]) -> (r: (StepOutput, usize))
        requires
            conn_wf(old(self)@),
            old(self)@.mode == ModeView::Frames,
            frames_step_ok(old(self)@, buf@),
        ensures
            conn_wf(final(self)@),
            r.1 <= buf@.len(),
            frames_step_rel(old(self)@, old(self).hpack_decoder(), buf@, view_of_step(final(self)@, r.0, r.1)),
            final(self).hpack_decoder() == decoder_after_step(old(self)@, old(self).hpack_decoder(), buf@),
            final(self).encoder == old(self).encoder,
    {
        let ghost c = self@;
        let f = match Frame::try_from_bytes(buf, self.max_frame_size) {
            Ok(f) => f,
            Err(FrameError::UnknownFrameNumber(_)) => {
                let n = crate::wire::read_u24_be(buf, 0) as usize;
                return (StepOutput { bytes: Vec::new(), next: Next::ReadMore }, n);
            },
            Err(FrameError::FrameTooBig { actual, max_frame_size }) => {
                return fail(ConnectionError::FrameTooBig { actual, max_frame_size });
            },
            Err(_) => {
                return wait(Next::ReadMoreOrStop);
            },
        };
        let p = vstd::slice::slice_subrange(buf, FRAME_HEADER_LENGTH, buf.len());
        assert(p@ == after_header(buf@));
        let len = f.length as usize;
        let sid = f.stream_identifier;
        match f.frame_type {
            FrameType::Settings => {
                if sid != 0 {
                    return fail(ConnectionError::SettingsNonDefaultSream);
                }
                if f.flags & 0x01 > 0 {
                    if f.length > 0 {
                        return fail(ConnectionError::NonZeroSettingsAckLength);
                    }
                    return (StepOutput { bytes: Vec::new(), next: Next::Continue }, FRAME_HEADER_LENGTH);
                }
                self.on_settings(f, p)
            },
            FrameType::WindowUpdate => {
                let window_update = match WindowUpdate::from_bytes(p, len) {
                    Ok(wu) => wu,
                    Err(_) => {
                        return wait(Next::ReadMore);
                    },
                };
                if window_update.0 == 0 {
                    return fail(ConnectionError::ZeroWindowUpdate);
                }
                if f.length != 4 {
                    return fail(ConnectionError::BadLengthWindowUpdate(f.length));
                }
                self.apply_window_update(sid, window_update.0)
            },
            FrameType::Headers => {
                if sid == 0 {
                    return fail(ConnectionError::HeaderOnStreamZero);
                }
                match Headers::from_bytes(p, &mut self.decoder, f.flags, len) {
                    Ok(h) => {
                        let r = self.deliver_headers(sid, h, FRAME_HEADER_LENGTH + len);
                                                r
                    },
                    Err(FrameError::BadFrameSize(_)) => {
                        self.mode = Mode::HeadersPending(f);
                        wait(Next::ReadMore)
                    },
                    Err(_) => fail(ConnectionError::InvalidFrame),
                }
            },
            FrameType::GoAway => {
                match GoAway::from_bytes(p, len) {
                    Ok(_) => {},
                    Err(_) => {
                        return wait(Next::ReadMore);
                    },
                }
                if sid != 0 {
                    return fail(ConnectionError::GoAwayOnNonDefaultStream);
                }
                wait(Next::Stop)
            },
            FrameType::Priority => {
                if sid == 0 {
                    return fail(ConnectionError::PriorityFrameOnStreamZero);
                }
                if f.length != 5 {
                    return fail(ConnectionError::BadLengthPriorityFrame(f.length));
                }
                (StepOutput { bytes: Vec::new(), next: Next::Continue }, FRAME_HEADER_LENGTH + 5)
            },
            FrameType::Continuation => fail(ConnectionError::ContinuationFrameWithoutHeaderFrame),
            FrameType::ResetStream => {
                match ResetStream::from_bytes(p, len) {
                    Ok(_) => {},
                    Err(_) => {
                        return wait(Next::ReadMore);
                    },
                }
                if !self.stream_manager.has_stream(sid) {
                    return fail(ConnectionError::InvalidFrame);
                }
                self.stream_manager.reset_at(sid);
                (StepOutput { bytes: Vec::new(), next: Next::Continue }, FRAME_HEADER_LENGTH + 4)
            },
            FrameType::Data => {
                if sid == 0 {
                    return fail(ConnectionError::DataOnStreamZero);
                }
                (StepOutput { bytes: Vec::new(), next: Next::Continue }, FRAME_HEADER_LENGTH + len)
            },
            FrameType::PushPromise => {
                proof {
                    assert(false);
                }
                wait(Next::Continue)
            },
            FrameType::Ping => {
                if sid != 0 {
                    return fail(ConnectionError::PingOnNon0Stream);
                }
                if f.length != PING_LENGTH as u32 {
                    return fail(ConnectionError::BadPingFrameSize);
                }
                let ping = match Ping::from_bytes(p, f.flags) {
                    Ok(ping) => ping,
                    Err(_) => {
                        return wait(Next::ReadMore);
                    },
                };
                if ping.is_ack {
                    (StepOutput { bytes: Vec::new(), next: Next::Continue }, FRAME_HEADER_LENGTH + PING_LENGTH)
                } else {
                    let ping_ack = Ping::new(true, ping.opaque_data);
                    let mut out: Vec<u8> = Vec::new();
                    build_frame_header(&mut out, FrameType::Ping, sid, &ping_ack, None);
                    assert(out@ == frame_bytes(FrameType::Ping, 0x01, sid, u64_be(be_value(p@.subrange(0, 8)) as u64)));
                    (StepOutput { bytes: out, next: Next::Continue }, FRAME_HEADER_LENGTH + PING_LENGTH)
                }
            },
        }
    }
}

impl ConnectionState {
    /// Waiting for the rest of HEADERS frame `f` (see `headers_pending_rel`).
    fn step_headers_pending(&mut self, f: Frame, buf: &[u8]) -> (r: (StepOutput, usize))
        requires
            conn_wf(old(self)@),
            old(self)@.mode == ModeView::Frames,
            f.length <= MAX_FRAME_SIZE,
            buf@.len() >= 9,
            headers_payload_ok(f, after_header(buf@)),
        ensures
            conn_wf(final(self)@),
            r.1 <= buf@.len(),
            headers_pending_rel(
                ConnView { mode: ModeView::HeadersPending(f), ..old(self)@ },
                old(self).hpack_decoder(),
                f,
                buf@,
                view_of_step(final(self)@, r.0, r.1),
            ),
            final(self).hpack_decoder() == decoder_after_step(
                ConnView { mode: ModeView::HeadersPending(f), ..old(self)@ },
                old(self).hpack_decoder(),
                buf@,
            ),
            final(self).encoder == old(self).encoder,
    {
        let ghost c = ConnView { mode: ModeView::HeadersPending(f), ..self@ };
        let p = vstd::slice::slice_subrange(buf, FRAME_HEADER_LENGTH, buf.len());
        assert(p@ == after_header(buf@));
        let len = f.length as usize;
        if p.len() < len {
            self.mode = Mode::HeadersPending(f);
            return wait(Next::ReadMore);
        }
        match Headers::from_bytes(p, &mut self.decoder, f.flags, len) {
            Ok(h) => {
                let r = self.deliver_headers(f.stream_identifier, h, FRAME_HEADER_LENGTH + len);
                                r
            },
            Err(_) => {
                if Headers::is_end_header(f.flags) {
                    self.mode = Mode::HeadersPending(f);
                    return fail(ConnectionError::InvalidFrame);
                }
                match Headers::extract_headers_data(p, f.flags, len) {
                    Ok(block) => {
                        self.mode = Mode::Continuation(f, block);
                        (StepOutput { bytes: Vec::new(), next: Next::Continue }, FRAME_HEADER_LENGTH + len)
                    },
                    Err(_) => {
                        self.mode = Mode::HeadersPending(f);
                        fail(ConnectionError::InvalidFrame)
                    },
                }
            },
        }
    }

    /// Gathering CONTINUATION frames after HEADERS frame `f0`, the header
    /// block so far `block` (see `continuation_rel`).
    fn step_continuation(&mut self, f0: Frame, block: Vec<u8>, buf: &[u8]) -> (r: (StepOutput, usize))
        requires
            conn_wf(ConnView { mode: ModeView::Continuation(f0, block@), ..old(self)@ }),
            old(self)@.mode == ModeView::Frames,
        ensures
            conn_wf(final(self)@),
            r.1 <= buf@.len(),
            continuation_rel(
                ConnView { mode: ModeView::Continuation(f0, block@), ..old(self)@ },
                old(self).hpack_decoder(),
                f0,
                block@,
                buf@,
                view_of_step(final(self)@, r.0, r.1),
            ),
            final(self).hpack_decoder() == decoder_after_step(
                ConnView { mode: ModeView::Continuation(f0, block@), ..old(self)@ },
                old(self).hpack_decoder(),
                buf@,
            ),
            final(self).encoder == old(self).encoder,
    {
        let ghost c = ConnView { mode: ModeView::Continuation(f0, block@), ..self@ };
        let ghost b0 = block@;
        let f = match Frame::try_from_bytes(buf, self.max_frame_size) {
            Ok(f) => f,
            Err(_) => {
                self.mode = Mode::Continuation(f0, block);
                return fail(ConnectionError::InvalidFrame);
            },
        };
        match f.frame_type {
            FrameType::Continuation => {},
            _ => {
                self.mode = Mode::Continuation(f0, block);
                return fail(ConnectionError::InvalidFrame);
            },
        }
        let p = vstd::slice::slice_subrange(buf, FRAME_HEADER_LENGTH, buf.len());
        assert(p@ == after_header(buf@));
        let len = f.length as usize;
        let continuation = match Continuation::from_bytes(p, f.flags, len) {
            Ok(cont) => cont,
            Err(_) => {
                self.mode = Mode::Continuation(f0, block);
                return wait(Next::Continue);
            },
        };
        let mut block2 = block;
        crate::wire::push_all(&mut block2, continuation.fragment());
        assert(block2@ == b0 + p@.subrange(0, len as int));
        if continuation.is_end_header() {
            let total = block2.len();
            match Headers::from_bytes(block2.as_slice(), &mut self.decoder, f0.flags, total) {
                Ok(h) => {
                    let r = self.deliver_headers(f0.stream_identifier, h, FRAME_HEADER_LENGTH + len);
                                        r
                },
                Err(_) => {
                    self.mode = Mode::Continuation(f0, block2);
                    fail(ConnectionError::InvalidFrame)
                },
            }
        } else {
            self.mode = Mode::Continuation(f0, block2);
            (StepOutput { bytes: Vec::new(), next: Next::ReadMore }, FRAME_HEADER_LENGTH + len)
        }
    }

    /// One step of the connection on the bytes received so far: reads what is
    /// at the front of `buffer`, consumes what it acted on, and returns the
    /// bytes to send and what to do next (see `step_rel`).
    pub fn step(&mut self, buffer: &mut Vec<u8>) -> (r: StepOutput)
        requires
            conn_wf(old(self)@),
            step_ok(old(self)@, old(buffer)@),
        ensures
            conn_wf(final(self)@),
            final(buffer)@.len() <= old(buffer)@.len(),
            final(buffer)@ == old(buffer)@.skip(old(buffer)@.len() - final(buffer)@.len()),
            step_rel(
                old(self)@,
                old(self).hpack_decoder(),
                old(buffer)@,
                StepView {
                    conn: final(self)@,
                    consumed: (old(buffer)@.len() - final(buffer)@.len()) as nat,
                    bytes: r.bytes@,
                    next: r.next,
                },
            ),
            final(self).hpack_decoder() == decoder_after_step(old(self)@, old(self).hpack_decoder(), old(buffer)@),
            final(self).hpack_encoder() == old(self).hpack_encoder(),
    {
        let ghost c = self@;
        let mut mode = Mode::Frames;
        std::mem::swap(&mut mode, &mut self.mode);
        let (out, consumed) = match mode {
            Mode::Frames => self.step_frames(buffer.as_slice()),
            Mode::HeadersPending(f) => self.step_headers_pending(f, buffer.as_slice()),
            Mode::Continuation(f0, block) => self.step_continuation(f0, block, buffer.as_slice()),
        };
        let rest = crate::wire::copy_range(buffer.as_slice(), consumed, buffer.len());
        *buffer = rest;
        out
    }
}

/// How a connection starts: on the preface, the connection state and the
/// server's SETTINGS frame to send; otherwise the GOAWAY frame to send
/// before closing.
pub enum Opening {
    Accepted(ConnectionState, Vec<u8>),
    Refused(Vec<u8>),
}

/// The response to a request may be sent on stream `sid`: it is registered
/// with a request, and a body, if any, is safe to send from it.
pub open spec fn respond_ok(c: ConnView, sid: u32, body: Option<Seq<u8>>) -> bool {
    &&& c.streams.streams.contains_key(sid)
    &&& c.streams.streams[sid].request is Some
    &&& body matches Some(b) ==> stream_send_safe(
        StreamView { pending: Some(b), ..c.streams.streams[sid] },
        c.max_frame_size as usize,
    )
}

/// Reads the first bytes of a connection: when they begin with the client
/// preface, consumes it and starts a connection, with the server's SETTINGS
/// frame to send; otherwise leaves them and answers with a GOAWAY frame of
/// error `BadConnectionPreface`.
pub fn open_connection(buffer: &mut Vec<u8>) -> (r: Opening)
    ensures
        starts_with_preface(old(buffer)@) ==> (r matches Opening::Accepted(c, b) && conn_wf(c@) && c@
            == ConnectionState::initial() && c.hpack_decoder() == fresh_decoder_state() && encoder_table(
            c.hpack_encoder(),
        ) == Seq::<(Seq<u8>, Seq<u8>)>::empty() && encoder_table_limit(c.hpack_encoder()) == 4096 && b@
            == server_settings_bytes() && final(buffer)@ == old(buffer)@.skip(24)),
        !starts_with_preface(old(buffer)@) ==> (r matches Opening::Refused(b) && b@ == go_away_bytes(
            ConnectionError::BadConnectionPreface,
        ) && final(buffer)@ == old(buffer)@),
{
    match check_connection_preface(buffer.as_slice()) {
        Some(offset) => {
            let rest = crate::wire::copy_range(buffer.as_slice(), offset, buffer.len());
            *buffer = rest;
            let state = ConnectionState::new();
            Opening::Accepted(state, server_settings_frame_bytes())
        },
        None => Opening::Refused(go_away_frame_bytes(ConnectionError::BadConnectionPreface)),
    }
}

impl ConnectionState {
    /// The state of a connection that has just read the preface.
    pub open spec fn initial() -> ConnView {
        ConnView {
            streams: StreamManagerView {
                streams: Map::empty(),
                order: Seq::empty(),
                initial_window_size: INITIAL_WINDOW_SIZE,
            },
            max_frame_size: MIN_FRAME_SIZE,
            global: 65535,
            mode: ModeView::Frames,
        }
    }

    /// Whether a WINDOW_UPDATE of `inc` on stream `sid` keeps to the
    /// preconditions of what it calls (see `window_update_ok`).
    fn window_update_can(&self, sid: u32, inc: u32) -> (r: bool)
        requires
            conn_wf(self@),
        ensures
            r == window_update_ok(self@, sid, inc),
    {
        let mfs = self.max_frame_size as usize;
        let ghost m = self@.streams;
        let global_ok = (self.global_window_size as i128) + (inc as i128) <= (i64::MAX as i128);
        match self.stream_manager.get_at(sid) {
            Some(st) => {
                let w = (st.window() as i128) + (inc as i128);
                if w > (i64::MAX as i128) {
                    return false;
                }
                if sid == 0 && !global_ok {
                    return false;
                }
                if w <= (MAX_WINDOW_SIZE as i128) {
                    if sid == 0 {
                        let ok = self.stream_manager.sends_safe_with(sid, w as i64, mfs);
                        assert(ok == sends_safe(with_window(m, sid, w as i64).streams, mfs)) by {
                            let m2 = with_window(m, sid, w as i64).streams;
                            assert(m2.dom() =~= m.streams.dom());
                            if ok {
                                assert forall|k: u32| #[trigger] m2.contains_key(k) implies stream_send_safe(m2[k], mfs) by {
                                    assert(m.streams.contains_key(k));
                                }
                            } else {
                                let k = choose|k: u32| #[trigger]
                                    m.streams.contains_key(k) && !stream_send_safe(
                                        if k == sid {
                                            StreamView { window: w as i64, ..m.streams[k] }
                                        } else {
                                            m.streams[k]
                                        },
                                        mfs,
                                    );
                                assert(m2.contains_key(k));
                            }
                        }
                        ok
                    } else {
                        st.send_safe_with(w as i64, mfs)
                    }
                } else {
                    true
                }
            },
            None => {
                if sid != 0 {
                    true
                } else if !global_ok {
                    false
                } else {
                    let ok = self.stream_manager.sends_safe_with(sid, 0, mfs);
                    assert(ok == sends_safe(m.streams, mfs)) by {
                        if ok {
                            assert forall|k: u32| #[trigger] m.streams.contains_key(k) implies stream_send_safe(
                                m.streams[k],
                                mfs,
                            ) by {
                                assert(k != sid);
                            }
                        }
                    }
                    ok
                }
            },
        }
    }

    /// Whether a step on `buffer` keeps to the preconditions of what it calls
    /// (see `step_ok`): the server cannot handle the frame otherwise.
    pub fn can_step(&self, buffer: &[u8]) -> (r: bool)
        requires
            conn_wf(self@),
        ensures
            r == step_ok(self@, buffer@),
    {
        match &self.mode {
            Mode::Frames => {},
            Mode::HeadersPending(f) => {
                return buffer.len() >= FRAME_HEADER_LENGTH && (buffer.len() - FRAME_HEADER_LENGTH < f.length as usize
                    || (f.flags & 0x08 == 0 && (f.flags & 0x20 == 0 || f.length >= 5)));
            },
            Mode::Continuation(_, _) => {
                return true;
            },
        }
        let f = match Frame::try_from_bytes(buffer, self.max_frame_size) {
            Ok(f) => f,
            Err(FrameError::UnknownFrameNumber(_)) => {
                return (crate::wire::read_u24_be(buffer, 0) as usize) <= buffer.len();
            },
            Err(_) => {
                return true;
            },
        };
        let plen = buffer.len() - FRAME_HEADER_LENGTH;
        let len = f.length as usize;
        let sid = f.stream_identifier;
        match f.frame_type {
            FrameType::WindowUpdate => {
                if plen < len {
                    return true;
                }
                if plen < 4 {
                    return false;
                }
                let inc = crate::wire::read_u32_be(buffer, 9);
                assert(buffer@.subrange(9, 13) =~= after_header(buffer@).subrange(0, 4));
                inc == 0 || len != 4 || self.window_update_can(sid, inc)
            },
            FrameType::Headers => sid == 0 || plen < len || (f.flags & 0x08 == 0 && (f.flags & 0x20 == 0
                || f.length >= 5)),
            FrameType::GoAway => plen < len || len >= 8,
            FrameType::Priority => sid == 0 || len != 5 || buffer.len() >= 14,
            FrameType::ResetStream => {
                if plen < len {
                    return true;
                }
                if plen < 4 {
                    return false;
                }
                match self.stream_manager.get_at(sid) {
                    None => true,
                    Some(st) => st.get_headers().is_some(),
                }
            },
            FrameType::Data => sid == 0 || len <= plen,
            FrameType::PushPromise => false,
            _ => true,
        }
    }

    /// The request headers received on stream `sid`, if any.
    pub fn request_headers(&self, sid: u32) -> (r: Option<&Headers>)
        ensures
            match r {
                Some(h) => self@.streams.streams.contains_key(sid) && self@.streams.streams[sid].request == Some(
                    headers_view(*h),
                ),
                None => !self@.streams.streams.contains_key(sid) || self@.streams.streams[sid].request is None,
            },
    {
        match self.stream_manager.get_at(sid) {
            Some(st) => st.get_headers(),
            None => None,
        }
    }

    /// Whether a response with a body of `body` (if any) may be sent on
    /// stream `sid` (see `respond_ok`).
    pub fn can_respond(&self, sid: u32, body: Option<&[u8]>) -> (r: bool)
        requires
            conn_wf(self@),
        ensures
            r == respond_ok(
                self@,
                sid,
                match body {
                    Some(b) => Some(b@),
                    None => None,
                },
            ),
    {
        match self.stream_manager.get_at(sid) {
            None => false,
            Some(st) => {
                if st.get_headers().is_none() {
                    return false;
                }
                match body {
                    None => true,
                    Some(b) => {
                        let n = b.len();
                        let w = st.window();
                        let mfs = self.max_frame_size as usize;
                        let chunk: usize = if mfs <= w as usize {
                            mfs
                        } else {
                            w as usize
                        };
                        (n as i128) <= (i64::MAX as i128) && (w as i128) - (n as i128) >= (i64::MIN as i128) && (w
                            == 0 || chunk > 0)
                    },
                }
            },
        }
    }

    /// Sends `response` on stream `sid`, which carries a request: a HEADERS
    /// frame with `:status` first, then as much of the body as the windows
    /// allow, the rest left pending (see `StreamManager::respond_at`).
    /// Returns the frames' bytes.
    pub fn respond(&mut self, sid: u32, response: Response) -> (r: Vec<u8>)
        requires
            conn_wf(old(self)@),
            respond_ok(old(self)@, sid, response@.body),
        ensures
            conn_wf(final(self)@),
            final(self)@.max_frame_size == old(self)@.max_frame_size,
            final(self)@.mode == old(self)@.mode,
            final(self)@.streams.order == old(self)@.streams.order,
            final(self)@.streams.initial_window_size == old(self)@.streams.initial_window_size,
            encoder_table(final(self).hpack_encoder()) == hpack_encoding_table(
                encoder_table(old(self).hpack_encoder()),
                encoder_table_limit(old(self).hpack_encoder()),
                response_header_list(response@),
            ),
            encoder_table_limit(final(self).hpack_encoder()) == encoder_table_limit(old(self).hpack_encoder()),
            final(self).hpack_decoder() == old(self).hpack_decoder(),
            match response@.body {
                None => final(self)@ == old(self)@ && r@ == frame_bytes(
                    FrameType::Headers,
                    0x05,
                    sid,
                    encoded_by(old(self).hpack_encoder(), response_header_list(response@)),
                ),
                Some(b) => {
                    let (s, g, d) = send_step(
                        StreamView { pending: Some(b), ..old(self)@.streams.streams[sid] },
                        old(self)@.global,
                        old(self)@.max_frame_size as usize,
                    );
                    &&& final(self)@.streams.streams == old(self)@.streams.streams.insert(sid, s)
                    &&& final(self)@.global == g
                    &&& r@ == frame_bytes(
                        FrameType::Headers,
                        0x04,
                        sid,
                        encoded_by(old(self).hpack_encoder(), response_header_list(response@)),
                    ) + d
                },
            },
    {
        let mfs = self.max_frame_size as usize;
        let ghost c = self@;
        proof {
            if let Some(b) = response@.body {
                let sv = StreamView { pending: Some(b), ..c.streams.streams[sid] };
                lemma_send_step_ok(sv, c.global, mfs);
                lemma_send_step_global(sv, c.global, mfs);
            }
        }
        let mut global = self.global_window_size;
        let r = self.stream_manager.respond_at(sid, response, &mut global, mfs, &mut self.encoder);
        self.global_window_size = global;
        r
    }
}

/// A PING that is not an acknowledgement, complete and on stream 0, is
/// answered with a PING acknowledgement on stream 0 whose 8 bytes read back
/// as the same opaque value; the 17 bytes of the ping are consumed and the
/// connection is left as it was.
pub proof fn lemma_ping_is_echoed(c: ConnView, dec: DecoderState, buf: Seq<u8>, v: StepView)
    requires
        c.mode == ModeView::Frames,
        buf.len() >= 17,
        parse_frame_header(buf, c.max_frame_size) == Ok::<Frame, FrameError>(
            Frame { length: 8, frame_type: FrameType::Ping, flags: buf[4], stream_identifier: 0 },
        ),
        !flag_bit_0(buf[4]),
        step_rel(c, dec, buf, v),
    ensures
        v.conn == c,
        v.consumed == 17,
        v.next == Next::Continue,
        v.bytes.len() == 17,
        v.bytes.subrange(0, 9) == crate::http2::frames::frame_header_bytes(8, FrameType::Ping, 0x01, 0),
        be_value(v.bytes.subrange(9, 17)) == be_value(buf.subrange(9, 17)),
{
    let p = after_header(buf);
    assert(p.subrange(0, 8) =~= buf.subrange(9, 17));
    let x = be_value(p.subrange(0, 8));
    crate::wire::lemma_be_value_8(p.subrange(0, 8));
    crate::wire::lemma_u64_be_roundtrip(x as u64);
    let payload = u64_be(x as u64);
    assert(v.bytes == frame_bytes(FrameType::Ping, 0x01, 0, payload));
    assert(v.bytes.subrange(9, 17) =~= payload);
    assert(v.bytes.subrange(0, 9) =~= crate::http2::frames::frame_header_bytes(8, FrameType::Ping, 0x01, 0));
}

/// A complete WINDOW_UPDATE of 0 ends the connection with
/// `ZeroWindowUpdate` (RFC 9113 6.9), whatever the stream.
pub proof fn lemma_zero_window_update_fails(c: ConnView, dec: DecoderState, buf: Seq<u8>, v: StepView)
    requires
        c.mode == ModeView::Frames,
        parse_frame_header(buf, c.max_frame_size) matches Ok(f) && f.frame_type == FrameType::WindowUpdate
            && after_header(buf).len() >= f.length,
        buf.len() >= 13,
        be_value(buf.subrange(9, 13)) == 0,
        step_rel(c, dec, buf, v),
    ensures
        v == failed(c, ConnectionError::ZeroWindowUpdate),
{
    assert(after_header(buf).subrange(0, 4) =~= buf.subrange(9, 13));
}

/// A round of sending over streams in `order`, the first of which has a
/// pending body that its window, the maximum frame size and the connection
/// window all let out at once: the bytes begin with that body in one DATA
/// frame ending the stream.
proof fn lemma_send_all_first_body(
    streams: Map<u32, StreamView>,
    order: Seq<u32>,
    global: i64,
    mfs: usize,
    k: u32,
    d: Seq<u8>,
)
    requires
        order.len() > 0,
        order[0] == k,
        streams.contains_key(k),
        streams[k].id == k,
        streams[k].pending == Some(d),
        d.len() > 0,
        streams[k].window >= d.len(),
        streams[k].window <= usize::MAX,
        mfs >= d.len(),
        global >= d.len(),
        global <= usize::MAX,
    ensures
        send_all(streams, order, global, mfs).2.len() >= 9 + d.len(),
        send_all(streams, order, global, mfs).2.subrange(0, 9 + d.len() as int) == frame_bytes(
            FrameType::Data,
            0x01,
            k,
            d,
        ),
{
    let sk = streams[k];
    let chunk = chunk_size(mfs, sk.window);
    assert(chunk >= d.len());
    let rest = send_plan(k, d, chunk, (sk.window - d.len()) as i64, (global - d.len()) as i64, d.len());
    assert(rest.bytes == Seq::<u8>::empty());
    assert(d.subrange(0, d.len() as int) =~= d);
    let plan = send_plan(k, d, chunk, sk.window, global, 0);
    assert(plan.bytes == frame_bytes(FrameType::Data, 0x01, k, d) + rest.bytes);
    assert(frame_bytes(FrameType::Data, 0x01, k, d) + rest.bytes =~= frame_bytes(FrameType::Data, 0x01, k, d));
    assert(sk.window != 0 && global != 0);
    assert(send_step(sk, global, mfs).2 == plan.bytes);
    let (s1, g2, b1) = send_step(sk, global, mfs);
    assert(b1 == frame_bytes(FrameType::Data, 0x01, k, d));
    let all = send_all(streams, order, global, mfs);
    let after = send_all(streams.insert(k, s1), order.drop_first(), g2, mfs);
    assert(all.2 == b1 + after.2);
    assert(all.2.subrange(0, 9 + d.len() as int) =~= b1);
}

/// The streams after a WINDOW_UPDATE of `inc` on stream 0 is accepted:
/// stream 0 registered if it was not, its window grown by `inc`.
pub open spec fn window_grown_on_zero(m: StreamManagerView, inc: u32) -> StreamManagerView {
    if m.streams.contains_key(0) {
        with_window(m, 0, (m.streams[0].window + inc) as i64)
    } else {
        with_window(registered(m, 0), 0, (m.initial_window_size + inc) as i64)
    }
}

/// An accepted WINDOW_UPDATE on stream 0 resumes every stream in order.
proof fn lemma_zero_window_update_step(c: ConnView, dec: DecoderState, buf: Seq<u8>, v: StepView, inc: u32)
    requires
        c.mode == ModeView::Frames,
        parse_frame_header(buf, c.max_frame_size) matches Ok(f) && f.frame_type == FrameType::WindowUpdate
            && f.stream_identifier == 0 && f.length == 4,
        buf.len() >= 13,
        be_value(buf.subrange(9, 13)) == inc,
        inc != 0,
        step_rel(c, dec, buf, v),
        !(v.next is Fail),
    ensures
        v == resume_all(c, window_grown_on_zero(c.streams, inc), (c.global + inc) as i64, seq![]),
{
    assert(after_header(buf).subrange(0, 4) =~= buf.subrange(9, 13));
}

/// Flow control: a WINDOW_UPDATE on stream 0 that is accepted resumes the
/// streams left waiting on the connection window. When the first stream
/// registered has a pending body that its own window, the maximum frame size
/// and the grown connection window all let out at once, the step's bytes
/// begin with that whole body in one DATA frame ending the stream. (The
/// windows are taken to fit in `usize`, as they do on 64-bit machines.)
pub proof fn lemma_connection_window_update_resumes_pending(
    c: ConnView,
    dec: DecoderState,
    buf: Seq<u8>,
    v: StepView,
    inc: u32,
    k: u32,
    d: Seq<u8>,
)
    requires
        c.mode == ModeView::Frames,
        parse_frame_header(buf, c.max_frame_size) matches Ok(f) && f.frame_type == FrameType::WindowUpdate
            && f.stream_identifier == 0 && f.length == 4,
        buf.len() >= 13,
        be_value(buf.subrange(9, 13)) == inc,
        inc != 0,
        conn_wf(c),
        c.global + inc <= i64::MAX,
        c.streams.order.len() > 0,
        c.streams.order[0] == k,
        k != 0,
        c.streams.streams.contains_key(k),
        c.streams.streams[k].pending == Some(d),
        d.len() > 0,
        c.streams.streams[k].window >= d.len(),
        c.max_frame_size >= d.len(),
        c.global + inc >= d.len(),
        c.streams.streams[k].window <= usize::MAX,
        c.global + inc <= usize::MAX,
        step_rel(c, dec, buf, v),
        !(v.next is Fail),
    ensures
        v.bytes.len() >= 9 + d.len(),
        v.bytes.subrange(0, 9 + d.len() as int) == frame_bytes(FrameType::Data, 0x01, k, d),
{
    assert(c.streams.streams[k].id == k);
    lemma_zero_window_update_step(c, dec, buf, v, inc);
    let m2 = window_grown_on_zero(c.streams, inc);
    let g1 = (c.global + inc) as i64;
    assert(m2.order[0] == k);
    assert(m2.streams[k] == c.streams.streams[k]);
    lemma_send_all_first_body(m2.streams, m2.order, g1, c.max_frame_size as usize, k, d);
    assert(v.bytes == seq![] + send_all(m2.streams, m2.order, g1, c.max_frame_size as usize).2);
    assert(seq![] + send_all(m2.streams, m2.order, g1, c.max_frame_size as usize).2 =~= send_all(
        m2.streams,
        m2.order,
        g1,
        c.max_frame_size as usize,
    ).2);
}

} // verus!
