//! The connection of the task-per-stream server: the preface, and what it
//! does with each frame header it reads.
use vstd::prelude::*;

use crate::http2::connection_preface;
use crate::tasks::frames::{
    check_check_priority_frame, task_header_bytes, Frame, FrameError, FrameType, Settings, SettingType, WindowUpdate,
};
use crate::tasks::streams::{first_setting, ConnectionSettings};

verus! {

/// Whether the first 24 bytes read are the client preface.
pub fn handle_connection_preface(preface_buffer: &[u8]) -> (r: bool)
    ensures
        r == (preface_buffer@ == connection_preface()),
{
    let expected = crate::http2::connection_preface_bytes();
    crate::wire::bytes_eq(preface_buffer, expected.as_slice())
}

/// What the connection does with a frame header it read.
#[derive(Debug)]
pub enum FrameAction {
    /// Read the SETTINGS payload and hand it to `ConnectionData::on_settings`:
    /// it is applied, every stream is told of a window change, and it is
    /// acknowledged unless it is an acknowledgement.
    Settings,
    /// A PRIORITY frame: skip its 5 bytes when `check_check_priority_frame`
    /// accepted it, else end the connection with the error.
    Priority(Result<(), FrameError>),
    /// Register the stream if it is new, and hand it a PUSH_PROMISE.
    PushPromise(u32),
    /// Register the stream if it is new, read the HEADERS payload, and hand it over.
    Header(u32),
    /// Read the WINDOW_UPDATE payload and hand it to
    /// `ConnectionData::on_window_update`: the increment goes to the frame's
    /// stream, or is added to the connection's window.
    WindowUpdate,
    /// Read the CONTINUATION payload and hand it to its stream.
    Continuation(u32),
}

/// The frame types the connection handles; DATA, RST_STREAM, PING and
/// GOAWAY it does not.
pub open spec fn handled_type(t: FrameType) -> bool {
    match t {
        FrameType::Settings | FrameType::Priority | FrameType::PushPromise | FrameType::Header
        | FrameType::WindowUpdate | FrameType::Continuation => true,
        _ => false,
    }
}

/// What to do with a frame header (see `FrameAction`). (Frames of a type the
/// connection does not handle are left out by `requires`.)
pub fn handle_frame(frame: &Frame) -> (r: FrameAction)
    requires
        handled_type(frame.frame_type),
    ensures
        match frame.frame_type {
            FrameType::Settings => r is Settings,
            FrameType::Priority => r matches FrameAction::Priority(c) && (c is Ok <==> (frame.length == 5
                && frame.stream_id != 0)),
            FrameType::PushPromise => r == FrameAction::PushPromise(frame.stream_id),
            FrameType::Header => r == FrameAction::Header(frame.stream_id),
            FrameType::WindowUpdate => r is WindowUpdate,
            _ => r == FrameAction::Continuation(frame.stream_id),
        },
{
    match frame.frame_type {
        FrameType::Settings => FrameAction::Settings,
        FrameType::Priority => FrameAction::Priority(check_check_priority_frame(frame)),
        FrameType::PushPromise => FrameAction::PushPromise(frame.stream_id),
        FrameType::Header => FrameAction::Header(frame.stream_id),
        FrameType::WindowUpdate => FrameAction::WindowUpdate,
        _ => FrameAction::Continuation(frame.stream_id),
    }
}

/// Where a WINDOW_UPDATE goes.
#[derive(Debug, PartialEq, Eq, Structural)]
pub enum WindowTarget {
    /// To the stream of this identifier.
    Stream(u32),
    /// The connection's window grows by this increment.
    Connection(u32),
}

/// Where a WINDOW_UPDATE read for header `frame` goes: to the frame's stream
/// when the update names a stream other than 0, else to the connection.
pub fn window_update_target(window_update: &WindowUpdate, frame: &Frame) -> (r: WindowTarget)
    ensures
        window_update.stream != 0 ==> r == WindowTarget::Stream(frame.stream_id),
        window_update.stream == 0 ==> r == WindowTarget::Connection(window_update.size_increment),
{
    if window_update.stream != 0 {
        WindowTarget::Stream(frame.stream_id)
    } else {
        WindowTarget::Connection(window_update.size_increment)
    }
}

/// What the connection keeps between frames: the initial window of its
/// streams, and its own flow-control window.
#[derive(Debug)]
pub struct ConnectionData {
    pub settings: ConnectionSettings,
    pub global_control_flow: u32,
}

/// What the connection does once it has read a frame's payload.
#[derive(Debug)]
pub struct PayloadOutcome {
    /// Bytes to write back on the connection.
    pub bytes: Vec<u8>,
    /// A change every stream's window is told of.
    pub stream_window_delta: Option<i64>,
    /// A WINDOW_UPDATE handed to the stream of this identifier.
    pub stream_update: Option<(u32, WindowUpdate)>,
}

/// The header of a SETTINGS acknowledgement: no payload, ACK set, stream 0.
pub open spec fn settings_ack_header() -> Frame {
    Frame { length: 0, frame_type: FrameType::Settings, flags: 0x01, stream_id: 0 }
}

/// `a + b` wrapped to 32 bits, as an atomic `fetch_add` leaves it.
pub open spec fn add_wrapping(a: u32, b: u32) -> u32 {
    if a + b > u32::MAX {
        (a + b - (u32::MAX + 1)) as u32
    } else {
        (a + b) as u32
    }
}

impl ConnectionData {
    /// A new connection: streams start with a window of 65535, and so does
    /// the connection.
    pub fn new() -> (r: Self)
        ensures
            r.settings.initial_window_size == 65535,
            r.global_control_flow == 65535,
    {
        Self { settings: ConnectionSettings::new(), global_control_flow: crate::tasks::frames::DEFAULT_WINDOW_SIZE }
    }

    /// A SETTINGS payload was read: when its first SETTINGS_INITIAL_WINDOW_SIZE
    /// differs from the current initial window, that value becomes the initial
    /// window and every stream's window moves by the difference; a frame that
    /// is not an acknowledgement is answered by a SETTINGS acknowledgement
    /// (an empty SETTINGS frame with ACK set, on stream 0), an acknowledgement
    /// by nothing. The connection's window stays.
    pub fn on_settings(&mut self, settings: &Settings) -> (r: PayloadOutcome)
        requires
            0 <= old(self).settings.initial_window_size <= u32::MAX,
        ensures
            0 <= final(self).settings.initial_window_size <= u32::MAX,
            final(self).global_control_flow == old(self).global_control_flow,
            r.bytes@ == if settings.is_ack {
                Seq::<u8>::empty()
            } else {
                task_header_bytes(settings_ack_header())
            },
            r.stream_update is None,
            match first_setting(settings.settings@, SettingType::InitialWindowSize) {
                Some(v) if v as i64 != old(self).settings.initial_window_size => r.stream_window_delta == Some(
                    (v - old(self).settings.initial_window_size) as i64,
                ) && final(self).settings.initial_window_size == v as i64,
                _ => r.stream_window_delta is None && final(self).settings.initial_window_size == old(
                    self,
                ).settings.initial_window_size,
            },
    {
        let step = self.settings.apply(settings);
        let bytes = if step.send_ack {
            let ack = Frame { length: 0, frame_type: FrameType::Settings, flags: 0x01, stream_id: 0 };
            ack.to_bytes()
        } else {
            Vec::new()
        };
        PayloadOutcome { bytes, stream_window_delta: step.stream_window_delta, stream_update: None }
    }

    /// A WINDOW_UPDATE payload was read for header `frame`: one naming a
    /// stream other than 0 is handed to the frame's stream, the connection's
    /// window staying; one on stream 0 adds its increment to the connection's
    /// window (wrapping at 32 bits) and no stream is told. Nothing is written back.
    pub fn on_window_update(&mut self, frame: &Frame, window_update: WindowUpdate) -> (r: PayloadOutcome)
        ensures
            final(self).settings.initial_window_size == old(self).settings.initial_window_size,
            r.bytes@ == Seq::<u8>::empty(),
            r.stream_window_delta is None,
            window_update.stream != 0 ==> r.stream_update == Some((frame.stream_id, window_update))
                && final(self).global_control_flow == old(self).global_control_flow,
            window_update.stream == 0 ==> r.stream_update is None && final(self).global_control_flow == add_wrapping(
                old(self).global_control_flow,
                window_update.size_increment,
            ),
    {
        match window_update_target(&window_update, frame) {
            WindowTarget::Stream(id) => PayloadOutcome {
                bytes: Vec::new(),
                stream_window_delta: None,
                stream_update: Some((id, window_update)),
            },
            WindowTarget::Connection(inc) => {
                self.global_control_flow = self.global_control_flow.wrapping_add(inc);
                PayloadOutcome { bytes: Vec::new(), stream_window_delta: None, stream_update: None }
            },
        }
    }
}

} // verus!
