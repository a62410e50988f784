//! A stream of the task-per-stream server: its state, its flow-control
//! window, and the response body still to send.
use vstd::prelude::*;

use crate::hpack::{encoder_table, encoder_table_limit, hpack_encoding};
use crate::response::{response_header_list, Response, ResponseView};
use crate::tasks::frames::{
    frame_to_bytes, SerializeFrame, task_header_bytes, Data, Frame, FrameType, HeaderStatus, HeaderStatusView,
    Headers, WindowUpdate,
};
use crate::http2::frames::headers::end_headers_flag;
use crate::wire::{ascii, ascii_vec, copy_range, decimal, decimal_bytes, pairs_view};

verus! {

/// How many streams a connection serves at once.
pub const MAX_CONCURRENT_STREAM: usize = 100;

/// The states of RFC 9113 5.1 the server tracks.
#[derive(Debug, Clone, Copy, PartialEq, Eq, Structural)]
pub enum StreamState {
    Idle,
    ReservedLocal,
    ReservedRemote,
    HalfClosedRemote,
    HalfClosedLocal,
    Closed,
}

/// What the connection hands a stream.
#[derive(Debug)]
pub enum StreamFrame {
    PushPromise,
    Header(Headers),
    WindowUpdate(WindowUpdate),
}

/// A stream: its identifier, its state, its flow-control window, and the
/// body to send with the offset it is sent from.
#[derive(Debug)]
pub struct Stream {
    pub id: u32,
    state: StreamState,
    flow_control: u32,
    to_send: Option<(usize, Vec<u8>)>,
}

/// A stream, by value.
pub struct TaskStreamView {
    pub id: u32,
    pub state: StreamState,
    pub flow_control: u32,
    pub to_send: Option<(nat, Seq<u8>)>,
}

impl View for Stream {
    type V = TaskStreamView;

    closed spec fn view(&self) -> TaskStreamView {
        TaskStreamView {
            id: self.id,
            state: self.state,
            flow_control: self.flow_control,
            to_send: match self.to_send {
                Some((s, b)) => Some((s as nat, b@)),
                None => None,
            },
        }
    }
}

/// The DATA frame of a piece of the body: END_STREAM set on every piece.
pub open spec fn data_frame(id: u32, chunk: Seq<u8>) -> Seq<u8> {
    task_header_bytes(Frame { length: chunk.len() as u32, frame_type: FrameType::Data, flags: 1, stream_id: id })
        + chunk
}

/// Sending `data` from `pos` in pieces of `chunk` bytes: each piece goes out
/// while it fits both the stream's window and the connection's, each taking
/// its length off both; it stops at the first piece that does not fit. The
/// windows after, and the frames, in order.
pub open spec fn data_plan(id: u32, data: Seq<u8>, pos: nat, chunk: nat, flow: u32, global: u32) -> (u32, u32, Seq<Seq<u8>>)
    decreases data.len() - pos,
{
    if pos >= data.len() || chunk == 0 {
        (flow, global, seq![])
    } else {
        let n: nat = if chunk <= data.len() - pos {
            chunk
        } else {
            (data.len() - pos) as nat
        };
        if n > flow || n > global {
            (flow, global, seq![])
        } else {
            let rest = data_plan(id, data, pos + n, chunk, (flow - n) as u32, (global - n) as u32);
            (rest.0, rest.1, seq![data_frame(id, data.subrange(pos as int, (pos + n) as int))] + rest.2)
        }
    }
}

/// The smaller of two windows.
pub open spec fn min_window(a: u32, b: u32) -> u32 {
    if a <= b {
        a
    } else {
        b
    }
}

/// What sending the pending body does: the stream's window after, the
/// connection's, and the frames (see `data_plan`); nothing without a body.
/// The body and its offset stay as they were.
pub open spec fn send_within(s: TaskStreamView, global: u32) -> (u32, u32, Seq<Seq<u8>>) {
    match s.to_send {
        None => (s.flow_control, global, seq![]),
        Some((sent, body)) => data_plan(
            s.id,
            body,
            sent,
            min_window(s.flow_control, global) as nat,
            s.flow_control,
            global,
        ),
    }
}

/// Whether sending the pending body keeps to its preconditions: the offset
/// is within the body, and neither window is 0 (pieces of 0 bytes cannot be cut).
pub open spec fn send_within_ok(s: TaskStreamView, global: u32) -> bool {
    s.to_send matches Some((sent, body)) ==> sent <= body.len() && min_window(s.flow_control, global) > 0
}


/// One step of `send_plan` where the piece fits.
proof fn lemma_data_plan_fits(id: u32, data: Seq<u8>, pos: nat, chunk: nat, flow: u32, global: u32, n: nat)
    requires
        pos < data.len(),
        chunk > 0,
        n == if chunk <= data.len() - pos { chunk } else { (data.len() - pos) as nat },
        n <= flow,
        n <= global,
    ensures
        ({
            let rest = data_plan(id, data, pos + n, chunk, (flow - n) as u32, (global - n) as u32);
            data_plan(id, data, pos, chunk, flow, global) == (
                rest.0,
                rest.1,
                seq![data_frame(id, data.subrange(pos as int, (pos + n) as int))] + rest.2,
            )
        }),
{
}

/// Flow control: sending a body takes the same number of bytes off the
/// stream's window and off the connection's, no more than the body has left.
pub proof fn lemma_data_plan_within_windows(id: u32, data: Seq<u8>, pos: nat, chunk: nat, flow: u32, global: u32)
    requires
        pos <= data.len(),
    ensures
        ({
            let p = data_plan(id, data, pos, chunk, flow, global);
            &&& flow - p.0 == global - p.1
            &&& 0 <= flow - p.0 <= data.len() - pos
        }),
    decreases data.len() - pos,
{
    if pos < data.len() && chunk != 0 {
        let n: nat = if chunk <= data.len() - pos {
            chunk
        } else {
            (data.len() - pos) as nat
        };
        if !(n > flow || n > global) {
            lemma_data_plan_within_windows(id, data, pos + n, chunk, (flow - n) as u32, (global - n) as u32);
        }
    }
}

/// The frames' bytes, each by value.
pub open spec fn frames_view(v: Seq<Vec<u8>>) -> Seq<Seq<u8>> {
    v.map_values(|f: Vec<u8>| f@)
}

/// The DATA frame of a piece of the body (see `data_frame`).
fn data_frame_bytes(id: u32, chunk: Vec<u8>) -> (r: Vec<u8>)
    requires
        chunk@.len() <= u32::MAX,
    ensures
        r@ == data_frame(id, chunk@),
{
    let ghost c = chunk@;
    let data = Data { flags: 0x01, data: chunk };
    let mut frame = Frame { stream_id: id, frame_type: FrameType::Data, length: 0, flags: 0 };
    let payload = data.serialize_frame(&mut frame, None);
    let mut bytes = frame.to_bytes();
    crate::wire::push_all(&mut bytes, payload.as_slice());
    bytes
}

impl Stream {
    /// A stream in state `Idle` with window `flow_control` and nothing to send.
    pub fn new(id: u32, flow_control: u32) -> (r: Self)
        ensures
            r@ == (TaskStreamView { id, state: StreamState::Idle, flow_control, to_send: None }),
    {
        Self { id, state: StreamState::Idle, flow_control, to_send: None }
    }

    /// Sends as much of the pending body as both windows allow, in pieces of
    /// the smaller window's size (see `send_within`); returns the DATA frames.
    pub fn send_data_within_control_flow(&mut self, global_flow_control: &mut u32) -> (r: Vec<Vec<u8>>)
        requires
            send_within_ok(old(self)@, *old(global_flow_control)),
        ensures
            ({
                let (f, g, frames) = send_within(old(self)@, *old(global_flow_control));
                &&& final(self)@ == (TaskStreamView { flow_control: f, ..old(self)@ })
                &&& *final(global_flow_control) == g
                &&& frames_view(r@) == frames
            }),
    {
        let mut out: Vec<Vec<u8>> = Vec::new();
        let ghost s0 = self@;
        let ghost g0 = *global_flow_control;
        let (sent, body) = match &self.to_send {
            Some((sent, body)) => (*sent, body),
            None => {
                assert(frames_view(out@) =~= seq![]);
                return out;
            },
        };
        let chunk: usize = if self.flow_control <= *global_flow_control {
            self.flow_control as usize
        } else {
            *global_flow_control as usize
        };
        let ghost plan = data_plan(self.id, body@, sent as nat, chunk as nat, s0.flow_control, g0);
        let mut pos: usize = sent;
        let mut flow = self.flow_control;
        let mut global = *global_flow_control;
        let mut done = false;
        assert(frames_view(out@) + plan.2 =~= plan.2);
        while pos < body.len() && !done
            invariant
                sent <= pos <= body@.len(),
                chunk > 0,
                chunk <= u32::MAX,
                self@ == s0,
                plan == data_plan(self.id, body@, sent as nat, chunk as nat, s0.flow_control, g0),
                ({
                    let cur = data_plan(self.id, body@, pos as nat, chunk as nat, flow, global);
                    &&& plan.0 == cur.0
                    &&& plan.1 == cur.1
                    &&& plan.2 == frames_view(out@) + cur.2
                    &&& done ==> cur == (flow, global, Seq::<Seq<u8>>::empty())
                }),
            decreases body@.len() - pos + if done {
                0int
            } else {
                1int
            },
        {
            let n: usize = if chunk <= body.len() - pos {
                chunk
            } else {
                body.len() - pos
            };
            if n > flow as usize || n > global as usize {
                done = true;
            } else {
                proof {
                    lemma_data_plan_fits(self.id, body@, pos as nat, chunk as nat, flow, global, n as nat);
                }
                let ghost before = frames_view(out@);
                flow = flow - n as u32;
                global = global - n as u32;
                let piece = copy_range(body.as_slice(), pos, pos + n);
                let bytes = data_frame_bytes(self.id, piece);
                out.push(bytes);
                pos = pos + n;
                proof {
                    assert(frames_view(out@) =~= before.push(bytes@));
                }
            }
        }
        assert(frames_view(out@) + seq![] =~= frames_view(out@));
        self.flow_control = flow;
        *global_flow_control = global;
        out
    }
}

/// What a stream's task does after a frame.
#[derive(Debug)]
pub enum JobStep {
    /// Nothing to send: wait for the next frame.
    Wait,
    /// A complete request: answer it (see `Stream::start_response`).
    Handle(Headers),
    /// Send these DATA frames, then wait for the next frame.
    Send(Vec<Vec<u8>>),
}

/// Whether a frame can be handled by a stream's task: a HEADERS frame must
/// end its header block (CONTINUATION is not handled), and a WINDOW_UPDATE
/// must keep the window within 32 bits and, with a body pending, leave both
/// windows above 0.
pub open spec fn on_frame_ok(s: TaskStreamView, frame: StreamFrame, global: u32) -> bool {
    match frame {
        StreamFrame::PushPromise => true,
        StreamFrame::Header(h) => end_headers_flag(h.flags),
        StreamFrame::WindowUpdate(w) => s.flow_control + w.size_increment <= u32::MAX && send_within_ok(
            TaskStreamView { flow_control: (s.flow_control + w.size_increment) as u32, ..s },
            global,
        ),
    }
}

impl Stream {
    /// The stream, by value (see `TaskStreamView`).
    pub closed spec fn spec_view(&self) -> TaskStreamView {
        self@
    }

    /// Whether a body is still to be sent.
    pub fn has_pending(&self) -> (r: bool)
        ensures
            r == self@.to_send is Some,
    {
        self.to_send.is_some()
    }

    /// What the stream's task does with a frame from the connection: a
    /// PUSH_PROMISE reserves the stream; a HEADERS frame is a request to
    /// answer; a WINDOW_UPDATE grows the window and resumes a pending body.
    pub fn on_frame(&mut self, frame: StreamFrame, global_flow_control: &mut u32) -> (r: JobStep)
        requires
            on_frame_ok(old(self)@, frame, *old(global_flow_control)),
        ensures
            match frame {
                StreamFrame::PushPromise => r is Wait && final(self)@ == (TaskStreamView {
                    state: StreamState::ReservedRemote,
                    ..old(self)@
                }) && *final(global_flow_control) == *old(global_flow_control),
                StreamFrame::Header(h) => r matches JobStep::Handle(h2) && h2 == h && final(self)@ == old(self)@
                    && *final(global_flow_control) == *old(global_flow_control),
                StreamFrame::WindowUpdate(w) => {
                    let s1 = TaskStreamView {
                        flow_control: (old(self)@.flow_control + w.size_increment) as u32,
                        ..old(self)@
                    };
                    if s1.to_send is Some {
                        let (f, g, frames) = send_within(s1, *old(global_flow_control));
                        &&& final(self)@ == (TaskStreamView { flow_control: f, ..s1 })
                        &&& *final(global_flow_control) == g
                        &&& r matches JobStep::Send(v) && frames_view(v@) == frames
                    } else {
                        r is Wait && final(self)@ == s1 && *final(global_flow_control) == *old(global_flow_control)
                    }
                },
            },
    {
        match frame {
            StreamFrame::PushPromise => {
                self.state = StreamState::ReservedRemote;
                JobStep::Wait
            },
            StreamFrame::Header(headers) => JobStep::Handle(headers),
            StreamFrame::WindowUpdate(window_update) => {
                self.flow_control = self.flow_control + window_update.size_increment;
                if self.to_send.is_some() {
                    JobStep::Send(self.send_data_within_control_flow(global_flow_control))
                } else {
                    JobStep::Wait
                }
            },
        }
    }

    /// Starts answering with `response`: its HEADERS frame (see
    /// `response_headers`), the body, if any, becoming the body to send from
    /// offset 0.
    pub fn start_response(&mut self, response: Response) -> (r: Headers)
        ensures
            r.flags == if response@.body is None {
                0x05u8
            } else {
                0x04u8
            },
            r.headers@ == HeaderStatusView::Complete(response_header_list(response@)),
            final(self)@ == (TaskStreamView {
                to_send: match response@.body {
                    Some(b) => Some((0nat, b)),
                    None => old(self)@.to_send,
                },
                ..old(self)@
            }),
    {
        let ghost rv = response@;
        let Response { code, headers, body } = response;
        proof {
            reveal_strlit(":status");
        }
        let mut list: Vec<(Vec<u8>, Vec<u8>)> = Vec::new();
        list.push((ascii_vec(":status"), decimal_bytes(code as u64)));
        let mut rest = headers;
        list.append(&mut rest);
        assert(pairs_view(list@) =~= response_header_list(rv));
        let flags: u8 = if body.is_none() {
            0x05
        } else {
            0x04
        };
        match body {
            Some(b) => {
                self.to_send = Some((0, b));
            },
            None => {},
        }
        Headers { flags, headers: HeaderStatus::Complete(list) }
    }
}

/// What a stream's task sends in answer to a request, and whether its job
/// is then over.
#[derive(Debug)]
pub struct Answer {
    /// The HEADERS frame.
    pub headers_frame: Vec<u8>,
    /// The DATA frames of the body that the windows let out.
    pub data_frames: Vec<Vec<u8>>,
    /// Whether the job ends: nothing is left to send.
    pub finished: bool,
}

/// The HEADERS frame of stream `id` for response `r`, the encoder's table
/// holding `table` under the maximum size `limit`: `:status` then the
/// response's headers, HPACK-encoded, with END_HEADERS, and END_STREAM when
/// there is no body.
pub open spec fn answer_headers_frame(
    id: u32,
    r: ResponseView,
    table: Seq<(Seq<u8>, Seq<u8>)>,
    limit: nat,
) -> Seq<u8> {
    let payload = hpack_encoding(table, limit, response_header_list(r));
    task_header_bytes(
        Frame {
            length: payload.len() as u32,
            frame_type: FrameType::Header,
            flags: if r.body is None {
                0x05u8
            } else {
                0x04u8
            },
            stream_id: id,
        },
    ) + payload
}

/// The stream once a response starts: its body, if any, to send from offset 0.
pub open spec fn with_response(s: TaskStreamView, r: ResponseView) -> TaskStreamView {
    TaskStreamView {
        to_send: match r.body {
            Some(b) => Some((0nat, b)),
            None => s.to_send,
        },
        ..s
    }
}

impl Stream {
    /// Answers a request with `response`: its HEADERS frame (see
    /// `answer_headers_frame`) goes out first; then, when something is to
    /// send, as much of it as both windows allow (see `send_within`), and the
    /// job goes on; when nothing is, the job ends. (A body that no window lets
    /// out at all is left out by `requires`.)
    pub fn answer(&mut self, response: Response, encoder: &mut fluke_hpack::Encoder, global_flow_control: &mut u32) -> (r:
        Answer)
        requires
            send_within_ok(with_response(old(self)@, response@), *old(global_flow_control)),
        ensures
            r.headers_frame@ == answer_headers_frame(
                old(self)@.id,
                response@,
                encoder_table(*old(encoder)),
                encoder_table_limit(*old(encoder)),
            ),
            ({
                let s1 = with_response(old(self)@, response@);
                &&& r.finished == (s1.to_send is None)
                &&& r.finished ==> final(self)@ == s1 && r.data_frames@.len() == 0 && *final(global_flow_control)
                    == *old(global_flow_control)
                &&& !r.finished ==> {
                    let (f, g, frames) = send_within(s1, *old(global_flow_control));
                    &&& final(self)@ == (TaskStreamView { flow_control: f, ..s1 })
                    &&& *final(global_flow_control) == g
                    &&& frames_view(r.data_frames@) == frames
                }
            }),
    {
        let ghost rv = response@;
        let headers = self.start_response(response);
        let mut frame = Frame { length: 0, frame_type: FrameType::Header, flags: 0, stream_id: self.id };
        let headers_frame = frame_to_bytes(&mut frame, &headers, Some(encoder));
        if !self.has_pending() {
            return Answer { headers_frame, data_frames: Vec::new(), finished: true };
        }
        let data_frames = self.send_data_within_control_flow(global_flow_control);
        Answer { headers_frame, data_frames, finished: false }
    }
}

/// The connection's side of the settings: the initial window of its streams.
#[derive(Debug)]
pub struct ConnectionSettings {
    pub initial_window_size: i64,
}

/// What the connection does with a SETTINGS frame: how much to add to every
/// stream's window (when the initial window changed), and whether to
/// acknowledge it.
#[derive(Debug)]
pub struct SettingsStep {
    pub stream_window_delta: Option<i64>,
    pub send_ack: bool,
}

/// The value of the first setting of `kind` in the list, if any.
pub open spec fn first_setting(s: Seq<(crate::tasks::frames::SettingType, u32)>, kind: crate::tasks::frames::SettingType) -> Option<u32>
    decreases s.len(),
{
    if s.len() == 0 {
        None
    } else if s[0].0 == kind {
        Some(s[0].1)
    } else {
        first_setting(s.drop_first(), kind)
    }
}

/// The first SETTINGS_INITIAL_WINDOW_SIZE value of a list, if any.
fn find_initial_window(list: &[(crate::tasks::frames::SettingType, u32)]) -> (r: Option<u32>)
    ensures
        r == first_setting(list@, crate::tasks::frames::SettingType::InitialWindowSize),
{
    let mut i: usize = 0;
    assert(list@.subrange(0, list@.len() as int) =~= list@);
    while i < list.len()
        invariant
            i <= list@.len(),
            first_setting(list@, crate::tasks::frames::SettingType::InitialWindowSize) == first_setting(
                list@.subrange(i as int, list@.len() as int),
                crate::tasks::frames::SettingType::InitialWindowSize,
            ),
        decreases list@.len() - i,
    {
        assert(list@.subrange(i as int, list@.len() as int).drop_first() =~= list@.subrange(i + 1, list@.len() as int));
        if list[i].0 == crate::tasks::frames::SettingType::InitialWindowSize {
            return Some(list[i].1);
        }
        i = i + 1;
    }
    None
}

impl ConnectionSettings {
    /// The settings a connection starts with: streams get a window of 65535.
    pub fn new() -> (r: Self)
        ensures
            r.initial_window_size == 65535,
    {
        Self { initial_window_size: crate::tasks::frames::DEFAULT_WINDOW_SIZE as i64 }
    }

    /// Applies a SETTINGS frame: when its first SETTINGS_INITIAL_WINDOW_SIZE
    /// differs from the current initial window, every stream's window moves
    /// by the difference and the new value becomes the initial window; a
    /// frame that is not an acknowledgement is acknowledged.
    pub fn apply(&mut self, settings: &crate::tasks::frames::Settings) -> (r: SettingsStep)
        requires
            0 <= old(self).initial_window_size <= u32::MAX,
        ensures
            0 <= final(self).initial_window_size <= u32::MAX,
            r.send_ack == !settings.is_ack,
            match first_setting(settings.settings@, crate::tasks::frames::SettingType::InitialWindowSize) {
                Some(v) if v as i64 != old(self).initial_window_size => r.stream_window_delta == Some(
                    (v - old(self).initial_window_size) as i64,
                ) && final(self).initial_window_size == v as i64,
                _ => r.stream_window_delta is None && final(self).initial_window_size == old(
                    self,
                ).initial_window_size,
            },
    {
        let found = find_initial_window(settings.settings.as_slice());
        let delta = match found {
            Some(v) => {
                if v as i64 != self.initial_window_size {
                    let d = v as i64 - self.initial_window_size;
                    self.initial_window_size = v as i64;
                    Some(d)
                } else {
                    None
                }
            },
            None => None,
        };
        SettingsStep { stream_window_delta: delta, send_ack: !settings.is_ack }
    }
}

} // verus!
