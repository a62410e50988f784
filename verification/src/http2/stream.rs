//! HTTP/2 streams: their flow-control windows, the request they carry, the
//! response bytes still to send, and the set of streams of a connection.
use vstd::prelude::*;

use std::collections::HashMap;

use crate::http2::frames::{Data, FrameError, FrameType, Headers};
use crate::http2::response::{build_frame_header, frame_bytes, push_frame, ResponseSerialize};
use crate::hpack::{encoded_by, encoder_table, encoder_table_limit, hpack_encoding_table};
use crate::response::{response_header_list, Response};
use crate::wire::{ascii_vec, copy_range, decimal_bytes};

verus! {

broadcast use vstd::std_specs::hash::group_hash_axioms;

/// The flow-control window a stream starts with (RFC 9113 6.9.2).
pub const INITIAL_WINDOW_SIZE: i64 = 65535;

/// No flow-control window may be above 2^31 - 1.
pub const MAX_WINDOW_SIZE: i64 = 2147483647;

#[derive(Debug, PartialEq, Eq, Structural)]
enum StreamState {
    Idle,
    Closed,
}

/// A header list and whether it ended the stream.
pub type HeadersView = (Seq<(Seq<u8>, Seq<u8>)>, bool);

/// The value of a HEADERS frame.
pub open spec fn headers_view(h: Headers) -> HeadersView {
    (h.spec_headers(), h.spec_end_stream())
}

/// A stream, by value.
pub struct StreamView {
    pub id: u32,
    /// The stream's flow-control window.
    pub window: i64,
    /// Whether the stream is closed.
    pub closed: bool,
    /// The request headers received, if any.
    pub request: Option<HeadersView>,
    /// Response bytes that the window has not let through yet, if any.
    pub pending: Option<Seq<u8>>,
}

/// Pending response bytes only ever follow a request.
pub open spec fn stream_wf(v: StreamView) -> bool {
    v.pending is Some ==> v.request is Some
}

/// A stream of a connection.
#[derive(Debug)]
pub struct Stream {
    pub identifier: u32,
    window_space: i64,
    state: StreamState,
    request_headers: Option<Headers>,
    data_to_send: Option<Vec<u8>>,
}

impl View for Stream {
    type V = StreamView;

    closed spec fn view(&self) -> StreamView {
        StreamView {
            id: self.identifier,
            window: self.window_space,
            closed: self.state == StreamState::Closed,
            request: match self.request_headers {
                Some(h) => Some(headers_view(h)),
                None => None,
            },
            pending: match self.data_to_send {
                Some(d) => Some(d@),
                None => None,
            },
        }
    }
}

/// The size of the pieces the pending bytes are cut into: the maximum frame
/// size, or the stream's window when that is smaller.
pub open spec fn chunk_size(max_frame_size: usize, window: i64) -> nat {
    if max_frame_size <= (window as usize) {
        max_frame_size as nat
    } else {
        (window as usize) as nat
    }
}

/// What a round of sending does: bytes sent so far, the stream and connection
/// windows after it, and the DATA frames written.
pub struct SendPlan {
    pub sent: nat,
    pub window: i64,
    pub global: i64,
    pub bytes: Seq<u8>,
}

/// Sending `data` from offset `sent`, in pieces of `chunk` bytes: each piece
/// goes out as a DATA frame while it fits in both the stream's window and the
/// connection's (`as usize`, as the windows are compared), each taking its
/// length off both; the frame of the last piece has END_STREAM set. It stops
/// at the first piece that does not fit, or when all is sent.
pub open spec fn send_plan(id: u32, data: Seq<u8>, chunk: nat, window: i64, global: i64, sent: nat) -> SendPlan
    decreases data.len() - sent,
{
    if sent >= data.len() || chunk == 0 {
        SendPlan { sent, window, global, bytes: seq![] }
    } else {
        let len: nat = if chunk <= data.len() - sent {
            chunk
        } else {
            (data.len() - sent) as nat
        };
        if (window as usize) < len || (global as usize) < len {
            SendPlan { sent, window, global, bytes: seq![] }
        } else {
            let flags: u8 = if sent + len == data.len() {
                0x01
            } else {
                0x00
            };
            let rest = send_plan(id, data, chunk, (window - len) as i64, (global - len) as i64, sent + len);
            SendPlan {
                sent: rest.sent,
                window: rest.window,
                global: rest.global,
                bytes: frame_bytes(FrameType::Data, flags, id, data.subrange(sent as int, (sent + len) as int)) + rest.bytes,
            }
        }
    }
}

/// What `try_send_data_payload` does to a stream with pending bytes and the
/// connection window: nothing while either window is 0; else the bytes that
/// fit go out, and both windows shrink by the bytes sent. When all went out,
/// nothing stays pending and the stream closes if its request ended the
/// stream; otherwise the rest stays pending.
pub open spec fn send_step(s: StreamView, global: i64, max_frame_size: usize) -> (StreamView, i64, Seq<u8>) {
    let d = s.pending.unwrap();
    if s.window == 0 || global == 0 {
        (s, global, seq![])
    } else {
        let p = send_plan(s.id, d, chunk_size(max_frame_size, s.window), s.window, global, 0);
        if p.sent >= d.len() {
            (
                StreamView { pending: None, closed: s.closed || s.request.unwrap().1, window: p.window, ..s },
                p.global,
                p.bytes,
            )
        } else {
            (
                StreamView { pending: Some(d.subrange(p.sent as int, d.len() as int)), window: p.window, ..s },
                p.global,
                p.bytes,
            )
        }
    }
}

/// Whether a round of sending keeps to its preconditions: no window goes
/// below `i64::MIN`, and pieces are not empty.
pub open spec fn send_step_ok(s: StreamView, global: i64, max_frame_size: usize) -> bool {
    &&& stream_wf(s)
    &&& s.pending is Some
    &&& max_frame_size > 0
    &&& s.window - s.pending.unwrap().len() >= i64::MIN
    &&& global - s.pending.unwrap().len() >= i64::MIN
    &&& (s.window != 0 && global != 0) ==> chunk_size(max_frame_size, s.window) > 0
}

/// One step of `send_plan`: the piece at `sent` fits, so its frame comes first.
proof fn lemma_send_plan_fits(id: u32, data: Seq<u8>, chunk: nat, window: i64, global: i64, sent: nat, len: nat)
    requires
        sent < data.len(),
        chunk > 0,
        len == if chunk <= data.len() - sent { chunk } else { (data.len() - sent) as nat },
        !((window as usize) < len || (global as usize) < len),
    ensures
        ({
            let rest = send_plan(id, data, chunk, (window - len) as i64, (global - len) as i64, sent + len);
            let flags: u8 = if sent + len == data.len() { 0x01 } else { 0x00 };
            send_plan(id, data, chunk, window, global, sent) == SendPlan {
                sent: rest.sent,
                window: rest.window,
                global: rest.global,
                bytes: frame_bytes(FrameType::Data, flags, id, data.subrange(sent as int, (sent + len) as int)) + rest.bytes,
            }
        }),
{
}

/// One step of `send_plan`: the piece at `sent` does not fit, so it stops.
proof fn lemma_send_plan_stops(id: u32, data: Seq<u8>, chunk: nat, window: i64, global: i64, sent: nat, len: nat)
    requires
        sent < data.len(),
        chunk > 0,
        len == if chunk <= data.len() - sent { chunk } else { (data.len() - sent) as nat },
        (window as usize) < len || (global as usize) < len,
    ensures
        send_plan(id, data, chunk, window, global, sent) == (SendPlan { sent, window, global, bytes: seq![] }),
{
}

/// A window of 0 or more, read `as usize` as the windows are compared, is
/// not larger than it is.
proof fn lemma_usize_of_window(x: i64)
    requires
        0 <= x,
    ensures
        (x as usize) as int <= x,
{
    assert(0 <= x ==> (x as usize) as u64 <= x as u64) by (bit_vector);
}

/// Sending keeps a connection window of 0 or more between 0 and what it was.
proof fn lemma_send_plan_global(id: u32, data: Seq<u8>, chunk: nat, window: i64, global: i64, sent: nat)
    requires
        0 <= global,
    ensures
        0 <= send_plan(id, data, chunk, window, global, sent).global <= global,
    decreases data.len() - sent,
{
    if sent < data.len() && chunk != 0 {
        let len: nat = if chunk <= data.len() - sent {
            chunk
        } else {
            (data.len() - sent) as nat
        };
        if !((window as usize) < len || (global as usize) < len) {
            lemma_usize_of_window(global);
            lemma_send_plan_global(id, data, chunk, (window - len) as i64, (global - len) as i64, sent + len);
        }
    }
}

/// A round of sending keeps a connection window of 0 or more between 0 and what it was.
pub proof fn lemma_send_step_global(s: StreamView, global: i64, max_frame_size: usize)
    requires
        0 <= global,
    ensures
        0 <= send_step(s, global, max_frame_size).1 <= global,
{
    let d = s.pending.unwrap();
    if !(s.window == 0 || global == 0) {
        lemma_send_plan_global(s.id, d, chunk_size(max_frame_size, s.window), s.window, global, 0);
    }
}

/// Sending from a window and a connection window of 0 or more never goes
/// beyond either: the bytes sent fit in both, and each shrinks by exactly
/// the bytes sent.
proof fn lemma_send_plan_within_windows(id: u32, data: Seq<u8>, chunk: nat, window: i64, global: i64, sent: nat)
    requires
        0 <= window,
        0 <= global,
        sent <= data.len(),
    ensures
        ({
            let p = send_plan(id, data, chunk, window, global, sent);
            &&& sent <= p.sent <= data.len()
            &&& p.sent - sent <= window
            &&& p.sent - sent <= global
            &&& p.window == window - (p.sent - sent)
            &&& p.global == global - (p.sent - sent)
        }),
    decreases data.len() - sent,
{
    if sent < data.len() && chunk != 0 {
        let len: nat = if chunk <= data.len() - sent {
            chunk
        } else {
            (data.len() - sent) as nat
        };
        if !((window as usize) < len || (global as usize) < len) {
            lemma_usize_of_window(window);
            lemma_usize_of_window(global);
            lemma_send_plan_within_windows(id, data, chunk, (window - len) as i64, (global - len) as i64, sent + len);
        }
    }
}

/// Flow control (RFC 9113 6.9): a round of sending from a stream whose
/// window and connection window are 0 or more sends no more than either
/// allows; the connection window shrinks by exactly the bytes sent; what is
/// left pending is the rest of the bytes, and the stream window then shrinks
/// by the bytes sent too.
pub proof fn lemma_send_step_within_windows(s: StreamView, global: i64, max_frame_size: usize)
    requires
        s.pending is Some,
        0 <= s.window,
        0 <= global,
    ensures
        ({
            let d = s.pending.unwrap();
            let (s2, g2, b) = send_step(s, global, max_frame_size);
            let n = d.len() - match s2.pending {
                Some(rest) => rest.len(),
                None => 0,
            };
            &&& 0 <= n <= s.window
            &&& n <= global
            &&& g2 == global - n
            &&& s2.pending matches Some(rest) ==> rest == d.subrange(n, d.len() as int) && s2.window == s.window - n
        }),
{
    let d = s.pending.unwrap();
    if !(s.window == 0 || global == 0) {
        lemma_send_plan_within_windows(s.id, d, chunk_size(max_frame_size, s.window), s.window, global, 0);
    }
}

/// What a stream with pending bytes needs for a round of sending to keep to
/// its preconditions, whatever the connection window of 0 or more.
pub open spec fn stream_send_safe(s: StreamView, max_frame_size: usize) -> bool {
    s.pending matches Some(d) ==> {
        &&& s.window - d.len() >= i64::MIN
        &&& d.len() <= i64::MAX
        &&& s.window != 0 ==> chunk_size(max_frame_size, s.window) > 0
    }
}

/// `stream_send_safe` of every stream of the map.
pub open spec fn sends_safe(streams: Map<u32, StreamView>, max_frame_size: usize) -> bool {
    forall|k: u32| #[trigger] streams.contains_key(k) ==> stream_send_safe(streams[k], max_frame_size)
}

/// A safe stream with pending bytes can be sent from under a connection window of 0 or more.
pub proof fn lemma_send_step_ok(s: StreamView, global: i64, max_frame_size: usize)
    requires
        stream_wf(s),
        s.pending is Some,
        stream_send_safe(s, max_frame_size),
        0 <= global,
        max_frame_size > 0,
    ensures
        send_step_ok(s, global, max_frame_size),
{
}

/// Resuming streams that are each safe, in an order without repeats, keeps to
/// the preconditions of every round, and leaves a connection window of 0 or
/// more between 0 and what it was.
pub proof fn lemma_send_all_ok(streams: Map<u32, StreamView>, order: Seq<u32>, global: i64, max_frame_size: usize)
    requires
        order.no_duplicates(),
        0 <= global,
        max_frame_size > 0,
        forall|i: int|
            0 <= i < order.len() && streams.contains_key(#[trigger] order[i]) ==> stream_wf(streams[order[i]])
                && stream_send_safe(streams[order[i]], max_frame_size),
    ensures
        send_all_ok(streams, order, global, max_frame_size),
        0 <= send_all(streams, order, global, max_frame_size).1 <= global,
    decreases order.len(),
{
    if order.len() > 0 {
        let k = order[0];
        let rest = order.drop_first();
        assert forall|i: int| 0 <= i < rest.len() implies #[trigger] rest[i] != k by {
            assert(order[i + 1] == rest[i]);
        }
        assert(rest.no_duplicates()) by {
            assert forall|a: int, b: int| 0 <= a < b < rest.len() implies rest[a] != rest[b] by {
                assert(order[a + 1] != order[b + 1]);
            }
        }
        if streams.contains_key(k) && streams[k].pending is Some {
            let (s, g, b) = send_step(streams[k], global, max_frame_size);
            lemma_send_step_ok(streams[k], global, max_frame_size);
            lemma_send_step_global(streams[k], global, max_frame_size);
            let m2 = streams.insert(k, s);
            assert forall|i: int| 0 <= i < rest.len() && m2.contains_key(#[trigger] rest[i]) implies stream_wf(
                m2[rest[i]],
            ) && stream_send_safe(m2[rest[i]], max_frame_size) by {
                assert(rest[i] != k);
                assert(order[i + 1] == rest[i]);
            }
            lemma_send_all_ok(m2, rest, g, max_frame_size);
        } else {
            assert forall|i: int| 0 <= i < rest.len() && streams.contains_key(#[trigger] rest[i]) implies stream_wf(
                streams[rest[i]],
            ) && stream_send_safe(streams[rest[i]], max_frame_size) by {
                assert(order[i + 1] == rest[i]);
            }
            lemma_send_all_ok(streams, rest, global, max_frame_size);
        }
    }
}

impl Stream {
    pub fn new(identifier: u32, initial_window_size: i64) -> (r: Self)
        ensures
            r@ == (StreamView {
                id: identifier,
                window: initial_window_size,
                closed: false,
                request: None,
                pending: None,
            }),
    {
        Self {
            identifier,
            window_space: initial_window_size,
            state: StreamState::Idle,
            request_headers: None,
            data_to_send: None,
        }
    }

    pub fn set_window_space(&mut self, size: i64)
        ensures
            final(self)@ == (StreamView { window: size, ..old(self)@ }),
    {
        self.window_space = size;
    }

    /// Adds `space` to the window, or fails with `WindowUpdateTooBig`, leaving
    /// the window as it was, when the sum would be above 2^31 - 1.
    pub fn update_window(&mut self, space: i64) -> (r: Result<(), FrameError>)
        requires
            i64::MIN <= old(self)@.window + space <= i64::MAX,
        ensures
            old(self)@.window + space > MAX_WINDOW_SIZE ==> r == Err::<(), FrameError>(FrameError::WindowUpdateTooBig)
                && final(self)@ == old(self)@,
            old(self)@.window + space <= MAX_WINDOW_SIZE ==> r == Ok::<(), FrameError>(())
                && final(self)@ == (StreamView { window: (old(self)@.window + space) as i64, ..old(self)@ }),
    {
        if self.window_space + space > MAX_WINDOW_SIZE {
            return Err(FrameError::WindowUpdateTooBig);
        }
        self.window_space += space;
        Ok(())
    }

    /// The stream's flow-control window.
    pub fn window(&self) -> (r: i64)
        ensures
            r == self@.window,
    {
        self.window_space
    }

    /// How many response bytes are pending, if any are.
    pub fn pending_len(&self) -> (r: Option<usize>)
        ensures
            match self@.pending {
                Some(d) => r matches Some(n) && n == d.len(),
                None => r is None,
            },
    {
        match &self.data_to_send {
            Some(d) => Some(d.len()),
            None => None,
        }
    }

    /// Whether this stream, with window `window` in place of its own, is safe
    /// to send from (see `stream_send_safe`).
    pub fn send_safe_with(&self, window: i64, max_frame_size: usize) -> (r: bool)
        ensures
            r == stream_send_safe(StreamView { window, ..self@ }, max_frame_size),
    {
        match self.pending_len() {
            None => true,
            Some(n) => {
                let chunk: usize = if max_frame_size <= window as usize {
                    max_frame_size
                } else {
                    window as usize
                };
                (n as i128) <= (i64::MAX as i128) && (window as i128) - (n as i128) >= (i64::MIN as i128) && (
                window == 0 || chunk > 0)
            },
        }
    }

    pub fn has_data_to_send(&self) -> (r: bool)
        ensures
            r == self@.pending is Some,
    {
        self.data_to_send.is_some()
    }

    pub fn set_headers(&mut self, header: Headers)
        ensures
            final(self)@ == (StreamView { request: Some(headers_view(header)), ..old(self)@ }),
    {
        self.request_headers = Some(header);
    }

    /// The request headers received, if any.
    pub fn get_headers(&self) -> (r: Option<&Headers>)
        ensures
            match r {
                Some(h) => self@.request == Some(headers_view(*h)),
                None => self@.request is None,
            },
    {
        self.request_headers.as_ref()
    }

    /// Closes the stream if its request ended the stream.
    fn mark_as_closed(&mut self)
        requires
            old(self)@.request is Some,
        ensures
            final(self)@ == (StreamView { closed: old(self)@.closed || old(self)@.request.unwrap().1, ..old(self)@ }),
    {
        if self.request_headers.as_ref().unwrap().should_stream_close() {
            self.state = StreamState::Closed;
        }
    }

    /// Sends as much of the pending response as the stream's and the
    /// connection's windows allow, in DATA frames of at most `max_frame_size`
    /// bytes (or the stream window, if smaller); returns the frames' bytes.
    pub fn try_send_data_payload(&mut self, global_window_size: &mut i64, max_frame_size: usize) -> (r: Vec<u8>)
        requires
            send_step_ok(old(self)@, *old(global_window_size), max_frame_size),
        ensures
            (final(self)@, *final(global_window_size), r@) == send_step(old(self)@, *old(global_window_size), max_frame_size),
            stream_wf(final(self)@),
    {
        let mut out: Vec<u8> = Vec::new();
        let data = self.data_to_send.take().unwrap();
        let ghost s0 = old(self)@;
        let ghost g0 = *old(global_window_size);
        let ghost d = data@;
        let mut window_space = self.window_space;
        if window_space == 0 || *global_window_size == 0 {
            self.data_to_send = Some(data);
            assert(self@ == s0);
            return out;
        }
        let chunk: usize = if max_frame_size <= window_space as usize {
            max_frame_size
        } else {
            window_space as usize
        };
        let ghost plan = send_plan(s0.id, d, chunk as nat, s0.window, g0, 0);
        let mut sent: usize = 0;
        assert(out@ + plan.bytes =~= plan.bytes);
        while sent < data.len()
            invariant
                sent <= data@.len(),
                d == data@,
                chunk > 0,
                chunk == chunk_size(max_frame_size, s0.window),
                window_space == s0.window - sent,
                *global_window_size == g0 - sent,
                s0.window - d.len() >= i64::MIN,
                g0 - d.len() >= i64::MIN,
                self.identifier == s0.id,
                self@ == (StreamView { pending: None, ..s0 }),
                s0 == old(self)@,
                g0 == *old(global_window_size),
                s0.pending == Some(d),
                stream_wf(s0),
                s0.window != 0,
                g0 != 0,
                plan == send_plan(s0.id, d, chunk as nat, s0.window, g0, 0),
                ({
                    let cur = send_plan(s0.id, d, chunk as nat, window_space, *global_window_size, sent as nat);
                    &&& plan.sent == cur.sent
                    &&& plan.window == cur.window
                    &&& plan.global == cur.global
                    &&& plan.bytes == out@ + cur.bytes
                }),
            decreases data@.len() - sent,
        {
            let len: usize = if chunk <= data.len() - sent {
                chunk
            } else {
                data.len() - sent
            };
            if (window_space as usize) < len || (*global_window_size as usize) < len {
                proof {
                    lemma_send_plan_stops(s0.id, d, chunk as nat, window_space, *global_window_size, sent as nat, len as nat);
                    assert(out@ + seq![] =~= out@);
                }
                let rest = copy_range(data.as_slice(), sent, data.len());
                self.data_to_send = Some(rest);
                self.window_space = window_space;
                assert(self@ == (StreamView { pending: Some(d.subrange(plan.sent as int, d.len() as int)), window: plan.window, ..s0 }));
                assert(plan == send_plan(s0.id, d, chunk_size(max_frame_size, s0.window), s0.window, g0, 0));
                assert(plan.global == *global_window_size);
                assert(plan.sent < d.len());
                assert(send_step(s0, g0, max_frame_size).0 == self@);
                assert(send_step(s0, g0, max_frame_size).1 == *global_window_size);
                assert(send_step(s0, g0, max_frame_size).2 == out@);
                return out;
            }
            proof {
                lemma_send_plan_fits(s0.id, d, chunk as nat, window_space, *global_window_size, sent as nat, len as nat);
            }
            let ghost before = out@;
            window_space = window_space - len as i64;
            *global_window_size = *global_window_size - len as i64;
            let piece = copy_range(data.as_slice(), sent, sent + len);
            let mut frame = Data::new(piece);
            frame.set_flags(
                if data.len() - (sent + len) == 0 {
                    0x01
                } else {
                    0x00
                },
            );
            build_frame_header(&mut out, FrameType::Data, self.identifier, &frame, None);
            assert(out@ == before + frame_bytes(FrameType::Data, frame.spec_data_flags(), s0.id, d.subrange(sent as int, (sent + len) as int)));
            sent = sent + len;
            proof {
                let cur = send_plan(s0.id, d, chunk as nat, window_space, *global_window_size, sent as nat);
                assert(plan.bytes == out@ + cur.bytes);
            }
        }
        assert(out@ + seq![] =~= out@);
        self.window_space = window_space;
        self.mark_as_closed();
        out
    }

    /// Sends `response` on this stream: a HEADERS frame whose block is the
    /// encoder's encoding of `:status` first and the response's headers after
    /// it (END_STREAM set when there is no body), then as much of the body as
    /// the windows allow, the rest left pending. Returns the frames' bytes.
    pub fn respond_to(
        &mut self,
        response: Response,
        global_window_size: &mut i64,
        max_frame_size: usize,
        encoder: &mut fluke_hpack::Encoder,
    ) -> (r: Vec<u8>)
        requires
            stream_wf(old(self)@),
            old(self)@.request is Some,
            response.body matches Some(b) ==> send_step_ok(
                StreamView { pending: Some(b@), ..old(self)@ },
                *old(global_window_size),
                max_frame_size,
            ),
        ensures
            stream_wf(final(self)@),
            encoder_table(*final(encoder)) == hpack_encoding_table(
                encoder_table(*old(encoder)),
                encoder_table_limit(*old(encoder)),
                response_header_list(response@),
            ),
            encoder_table_limit(*final(encoder)) == encoder_table_limit(*old(encoder)),
            match response@.body {
                None => final(self)@ == old(self)@ && *final(global_window_size) == *old(global_window_size)
                    && r@ == frame_bytes(
                    FrameType::Headers,
                    0x05,
                    old(self)@.id,
                    encoded_by(*old(encoder), response_header_list(response@)),
                ),
                Some(b) => {
                    let (s, g, d) = send_step(StreamView { pending: Some(b), ..old(self)@ }, *old(global_window_size), max_frame_size);
                    &&& final(self)@ == s
                    &&& *final(global_window_size) == g
                    &&& r@ == frame_bytes(
                        FrameType::Headers,
                        0x04,
                        old(self)@.id,
                        encoded_by(*old(encoder), response_header_list(response@)),
                    ) + d
                },
            },
    {
        let ghost rv = response@;
        let Response { code, headers, body } = response;
        proof {
            reveal_strlit(":status");
        }
        let mut headers_vec: Vec<(Vec<u8>, Vec<u8>)> = Vec::new();
        headers_vec.push((ascii_vec(":status"), decimal_bytes(code as u64)));
        let mut rest = headers;
        headers_vec.append(&mut rest);
        let header_frame = Headers::new(headers_vec.as_slice(), body.is_none());
        assert(header_frame.spec_headers() == response_header_list(rv));
        let block = header_frame.encode_block(encoder);
        let mut out: Vec<u8> = Vec::new();
        push_frame(&mut out, FrameType::Headers, header_frame.get_flags(), self.identifier, block.as_slice());
        let ghost head = out@;
        match body {
            Some(b) => {
                self.data_to_send = Some(b);
                let mut sent = self.try_send_data_payload(global_window_size, max_frame_size);
                out.append(&mut sent);
            },
            None => {},
        }
        out
    }

    /// Returns the stream to its start: the window set to
    /// `initial_window_size`, closed if its request ended the stream, no
    /// request and nothing pending. (A stream that never received a request
    /// is left out by `requires`.)
    pub fn reset(&mut self, initial_window_size: i64)
        requires
            old(self)@.request is Some,
        ensures
            final(self)@ == (StreamView {
                window: initial_window_size,
                closed: old(self)@.closed || old(self)@.request.unwrap().1,
                request: None,
                pending: None,
                ..old(self)@
            }),
    {
        self.window_space = initial_window_size;
        self.mark_as_closed();
        self.request_headers = None;
        if self.data_to_send.is_some() {
            self.data_to_send = None;
        }
    }
}

/// The streams of a connection, by value.
pub struct StreamManagerView {
    /// Each stream, by identifier.
    pub streams: Map<u32, StreamView>,
    /// The order the streams were registered in.
    pub order: Seq<u32>,
    /// The window new streams start with.
    pub initial_window_size: i64,
}

/// Each stream is registered once, under its own identifier, and keeps the
/// stream invariant.
pub open spec fn manager_wf(v: StreamManagerView) -> bool {
    &&& v.order.no_duplicates()
    &&& forall|k: u32| v.streams.contains_key(k) <==> v.order.contains(k)
    &&& forall|k: u32| #[trigger] v.streams.contains_key(k) ==> v.streams[k].id == k && stream_wf(v.streams[k])
}

/// Resuming the streams in `order` that have pending bytes, one after the
/// other, the connection window carried from each to the next: the streams
/// after, the connection window after, and the frames' bytes.
pub open spec fn send_all(streams: Map<u32, StreamView>, order: Seq<u32>, global: i64, max_frame_size: usize) -> (
    Map<u32, StreamView>,
    i64,
    Seq<u8>,
)
    decreases order.len(),
{
    if order.len() == 0 {
        (streams, global, seq![])
    } else {
        let k = order[0];
        let first = if streams.contains_key(k) && streams[k].pending is Some {
            let (s, g, b) = send_step(streams[k], global, max_frame_size);
            (streams.insert(k, s), g, b)
        } else {
            (streams, global, Seq::<u8>::empty())
        };
        let rest = send_all(first.0, order.drop_first(), first.1, max_frame_size);
        (rest.0, rest.1, first.2 + rest.2)
    }
}

/// Whether every round of `send_all` keeps to its preconditions.
pub open spec fn send_all_ok(streams: Map<u32, StreamView>, order: Seq<u32>, global: i64, max_frame_size: usize) -> bool
    decreases order.len(),
{
    if order.len() == 0 {
        true
    } else {
        let k = order[0];
        if streams.contains_key(k) && streams[k].pending is Some {
            let (s, g, b) = send_step(streams[k], global, max_frame_size);
            send_step_ok(streams[k], global, max_frame_size) && send_all_ok(
                streams.insert(k, s),
                order.drop_first(),
                g,
                max_frame_size,
            )
        } else {
            send_all_ok(streams, order.drop_first(), global, max_frame_size)
        }
    }
}

/// The streams of a connection.
#[derive(Debug)]
pub struct StreamManager {
    streams: HashMap<u32, Stream>,
    ids: Vec<u32>,
    initial_window_size: i64,
}

impl View for StreamManager {
    type V = StreamManagerView;

    closed spec fn view(&self) -> StreamManagerView {
        StreamManagerView {
            streams: self.streams@.map_values(|s: Stream| s@),
            order: self.ids@,
            initial_window_size: self.initial_window_size,
        }
    }
}

impl StreamManager {
    /// No streams; new streams start with a window of 65535.
    pub fn new() -> (r: Self)
        ensures
            r@.streams == Map::<u32, StreamView>::empty(),
            r@.order == Seq::<u32>::empty(),
            r@.initial_window_size == INITIAL_WINDOW_SIZE,
            manager_wf(r@),
    {
        let r = Self { streams: HashMap::new(), ids: Vec::new(), initial_window_size: INITIAL_WINDOW_SIZE };
        assert(r@.streams =~= Map::<u32, StreamView>::empty());
        r
    }

    pub fn has_stream(&self, index: u32) -> (r: bool)
        ensures
            r == self@.streams.contains_key(index),
    {
        self.streams.contains_key(&index)
    }

    pub fn get_at(&self, index: u32) -> (r: Option<&Stream>)
        ensures
            match r {
                Some(s) => self@.streams.contains_key(index) && self@.streams[index] == s@,
                None => !self@.streams.contains_key(index),
            },
    {
        self.streams.get(&index)
    }

    pub fn get_initial_window_size(&self) -> (r: i64)
        ensures
            r == self@.initial_window_size,
    {
        self.initial_window_size
    }

    /// Takes a registered stream out of the map.
    fn take(&mut self, index: u32) -> (r: Stream)
        requires
            old(self)@.streams.contains_key(index),
        ensures
            r@ == old(self)@.streams[index],
            final(self)@ == (StreamManagerView { streams: old(self)@.streams.remove(index), ..old(self)@ }),
    {
        let r = self.streams.remove(&index).unwrap();
        assert(self@.streams =~= old(self)@.streams.remove(index));
        r
    }

    /// Puts a stream back under `index`.
    fn put(&mut self, index: u32, s: Stream)
        ensures
            final(self)@ == (StreamManagerView { streams: old(self)@.streams.insert(index, s@), ..old(self)@ }),
    {
        let ghost sv = s@;
        self.streams.insert(index, s);
        assert(self@.streams =~= old(self)@.streams.insert(index, sv));
    }

    /// Registers a new stream under `index`, with the current initial window
    /// (replacing any stream registered there).
    pub fn register_new_stream(&mut self, index: u32)
        requires
            manager_wf(old(self)@),
        ensures
            manager_wf(final(self)@),
            final(self)@.streams == old(self)@.streams.insert(
                index,
                StreamView { id: index, window: old(self)@.initial_window_size, closed: false, request: None, pending: None },
            ),
            final(self)@.order == if old(self)@.streams.contains_key(index) {
                old(self)@.order
            } else {
                old(self)@.order.push(index)
            },
            final(self)@.initial_window_size == old(self)@.initial_window_size,
    {
        let present = self.streams.contains_key(&index);
        let s = Stream::new(index, self.initial_window_size);
        self.streams.insert(index, s);
        if !present {
            self.ids.push(index);
        }
        assert(final(self)@.streams =~= old(self)@.streams.insert(
            index,
            StreamView { id: index, window: old(self)@.initial_window_size, closed: false, request: None, pending: None },
        ));
        assert(old(self)@.streams.contains_key(index) <==> old(self)@.order.contains(index));
        assert(final(self)@.order.no_duplicates()) by {
            if !present {
                assert forall|a: int, b: int| 0 <= a < b < final(self)@.order.len() implies final(self)@.order[a]
                    != final(self)@.order[b] by {
                    if b == final(self)@.order.len() - 1 {
                        assert(old(self)@.order[a] == final(self)@.order[a]);
                    } else {
                        assert(old(self)@.order[a] != old(self)@.order[b]);
                    }
                }
            }
        }
        assert forall|k: u32| final(self)@.streams.contains_key(k) <==> final(self)@.order.contains(k) by {
            if !present && k == index {
                assert(final(self)@.order[final(self)@.order.len() - 1] == index);
            }
            if final(self)@.order.contains(k) && k != index {
                let j = choose|j: int| 0 <= j < final(self)@.order.len() && #[trigger] final(self)@.order[j] == k;
                assert(old(self)@.order[j] == k);
            }
            if old(self)@.order.contains(k) {
                let j = choose|j: int| 0 <= j < old(self)@.order.len() && #[trigger] old(self)@.order[j] == k;
                assert(final(self)@.order[j] == k);
            }
        }
    }

    /// Sets the initial window of new streams to `size`; the window of every
    /// registered stream becomes `size` minus the initial window it replaces.
    pub fn set_initial_window_size(&mut self, size: i64)
        requires
            manager_wf(old(self)@),
            i64::MIN <= size - old(self)@.initial_window_size <= i64::MAX,
        ensures
            manager_wf(final(self)@),
            final(self)@.streams == old(self)@.streams.map_values(
                |v: StreamView| StreamView { window: (size - old(self)@.initial_window_size) as i64, ..v },
            ),
            final(self)@.order == old(self)@.order,
            final(self)@.initial_window_size == size,
    {
        let delta = size - self.initial_window_size;
        let ghost old_streams = old(self)@.streams;
        let ghost target = old_streams.map_values(|v: StreamView| StreamView { window: delta, ..v });
        let mut i: usize = 0;
        while i < self.ids.len()
            invariant
                i <= self.ids@.len(),
                self.ids@ == old(self)@.order,
                self.initial_window_size == old(self)@.initial_window_size,
                manager_wf(old(self)@),
                old_streams == old(self)@.streams,
                target == old_streams.map_values(|v: StreamView| StreamView { window: delta, ..v }),
                self@.streams.dom() == old_streams.dom(),
                forall|k: u32| #[trigger] self@.streams.contains_key(k) ==> {
                    if self.ids@.subrange(0, i as int).contains(k) {
                        self@.streams[k] == target[k]
                    } else {
                        self@.streams[k] == old_streams[k]
                    }
                },
            decreases self.ids@.len() - i,
        {
            let index = self.ids[i];
            assert(self.ids@[i as int] == index);
            assert(old(self)@.order.contains(index));
            assert(old(self)@.streams.contains_key(index) <==> old(self)@.order.contains(index));
            assert(old_streams.contains_key(index));
            assert(self@.streams.contains_key(index));
            let mut s = self.take(index);
            s.set_window_space(delta);
            self.put(index, s);
            assert forall|k: u32| #[trigger] self@.streams.contains_key(k) implies {
                if self.ids@.subrange(0, i + 1).contains(k) {
                    self@.streams[k] == target[k]
                } else {
                    self@.streams[k] == old_streams[k]
                }
            } by {
                if k != index {
                    if self.ids@.subrange(0, i + 1).contains(k) {
                        let j = choose|j: int| 0 <= j < i + 1 && #[trigger] self.ids@.subrange(0, i + 1)[j] == k;
                        assert(j < i);
                        assert(self.ids@.subrange(0, i as int)[j] == k);
                    } else {
                        if self.ids@.subrange(0, i as int).contains(k) {
                            let j = choose|j: int| 0 <= j < i && #[trigger] self.ids@.subrange(0, i as int)[j] == k;
                            assert(self.ids@.subrange(0, i + 1)[j] == k);
                        }
                    }
                } else {
                    assert(self.ids@.subrange(0, i + 1)[i as int] == index);
                    assert(!self.ids@.subrange(0, i as int).contains(index)) by {
                        if self.ids@.subrange(0, i as int).contains(index) {
                            let j = choose|j: int| 0 <= j < i && #[trigger] self.ids@.subrange(0, i as int)[j] == index;
                            assert(self.ids@[j] == self.ids@[i as int]);
                        }
                    }
                }
            }
            assert(self@.streams.dom() =~= old_streams.dom());
            i = i + 1;
        }
        self.initial_window_size = size;
        assert(self.ids@.subrange(0, self.ids@.len() as int) =~= self.ids@);
        assert(self@.streams =~= target);
    }

    /// Adds `space` to the window of stream `index`: `None` when no such
    /// stream is registered; else the outcome of `Stream::update_window`.
    pub fn update_window_at(&mut self, index: u32, space: i64) -> (r: Option<Result<(), FrameError>>)
        requires
            manager_wf(old(self)@),
            old(self)@.streams.contains_key(index) ==> i64::MIN <= old(self)@.streams[index].window + space
                <= i64::MAX,
        ensures
            manager_wf(final(self)@),
            match r {
                None => !old(self)@.streams.contains_key(index) && final(self)@ == old(self)@,
                Some(res) => old(self)@.streams.contains_key(index) && ({
                    let s = old(self)@.streams[index];
                    if s.window + space > MAX_WINDOW_SIZE {
                        res == Err::<(), FrameError>(FrameError::WindowUpdateTooBig) && final(self)@ == old(self)@
                    } else {
                        res == Ok::<(), FrameError>(()) && final(self)@ == (StreamManagerView {
                            streams: old(self)@.streams.insert(index, StreamView { window: (s.window + space) as i64, ..s }),
                            ..old(self)@
                        })
                    }
                }),
            },
    {
        if !self.streams.contains_key(&index) {
            return None;
        }
        let mut s = self.take(index);
        let res = s.update_window(space);
        let ghost sv = s@;
        self.put(index, s);
        assert(old(self)@.streams.remove(index).insert(index, old(self)@.streams[index]) =~= old(self)@.streams);
        assert(old(self)@.streams.remove(index).insert(index, sv) =~= old(self)@.streams.insert(index, sv));
        Some(res)
    }

    /// Records the request headers of stream `index`.
    pub fn set_headers_at(&mut self, index: u32, header: Headers)
        requires
            manager_wf(old(self)@),
            old(self)@.streams.contains_key(index),
        ensures
            manager_wf(final(self)@),
            final(self)@ == (StreamManagerView {
                streams: old(self)@.streams.insert(
                    index,
                    StreamView { request: Some(headers_view(header)), ..old(self)@.streams[index] },
                ),
                ..old(self)@
            }),
    {
        let mut s = self.take(index);
        s.set_headers(header);
        let ghost sv = s@;
        self.put(index, s);
        assert(old(self)@.streams.remove(index).insert(index, sv) =~= old(self)@.streams.insert(index, sv));
    }

    /// Resumes sending the pending response of stream `index`.
    pub fn try_send_data_at(&mut self, index: u32, global_window_size: &mut i64, max_frame_size: usize) -> (r: Vec<u8>)
        requires
            manager_wf(old(self)@),
            old(self)@.streams.contains_key(index),
            send_step_ok(old(self)@.streams[index], *old(global_window_size), max_frame_size),
        ensures
            manager_wf(final(self)@),
            ({
                let (s, g, b) = send_step(old(self)@.streams[index], *old(global_window_size), max_frame_size);
                &&& final(self)@ == (StreamManagerView { streams: old(self)@.streams.insert(index, s), ..old(self)@ })
                &&& *final(global_window_size) == g
                &&& r@ == b
            }),
    {
        let mut s = self.take(index);
        let r = s.try_send_data_payload(global_window_size, max_frame_size);
        let ghost sv = s@;
        self.put(index, s);
        assert(old(self)@.streams.remove(index).insert(index, sv) =~= old(self)@.streams.insert(index, sv));
        r
    }

    /// Resets stream `index` to the current initial window (see `Stream::reset`).
    pub fn reset_at(&mut self, index: u32)
        requires
            manager_wf(old(self)@),
            old(self)@.streams.contains_key(index),
            old(self)@.streams[index].request is Some,
        ensures
            manager_wf(final(self)@),
            final(self)@ == (StreamManagerView {
                streams: old(self)@.streams.insert(
                    index,
                    StreamView {
                        window: old(self)@.initial_window_size,
                        closed: old(self)@.streams[index].closed || old(self)@.streams[index].request.unwrap().1,
                        request: None,
                        pending: None,
                        ..old(self)@.streams[index]
                    },
                ),
                ..old(self)@
            }),
    {
        let initial = self.initial_window_size;
        let mut s = self.take(index);
        s.reset(initial);
        let ghost sv = s@;
        self.put(index, s);
        assert(old(self)@.streams.remove(index).insert(index, sv) =~= old(self)@.streams.insert(index, sv));
    }

    /// Resumes, in the order they were registered, every stream with pending
    /// response bytes; returns the frames' bytes.
    pub fn try_send_data_all_stream(&mut self, global_window_size: &mut i64, max_frame_size: usize) -> (r: Vec<u8>)
        requires
            manager_wf(old(self)@),
            send_all_ok(old(self)@.streams, old(self)@.order, *old(global_window_size), max_frame_size),
        ensures
            manager_wf(final(self)@),
            ({
                let (m, g, b) = send_all(old(self)@.streams, old(self)@.order, *old(global_window_size), max_frame_size);
                &&& final(self)@ == (StreamManagerView { streams: m, ..old(self)@ })
                &&& *final(global_window_size) == g
                &&& r@ == b
            }),
    {
        let mut out: Vec<u8> = Vec::new();
        let ghost all = send_all(old(self)@.streams, old(self)@.order, *old(global_window_size), max_frame_size);
        let mut i: usize = 0;
        assert(self@.order.skip(0) =~= self@.order);
        assert(out@ + all.2 =~= all.2);
        while i < self.ids.len()
            invariant
                i <= self.ids@.len(),
                manager_wf(self@),
                self@.order == old(self)@.order,
                self@.initial_window_size == old(self)@.initial_window_size,
                all == send_all(old(self)@.streams, old(self)@.order, *old(global_window_size), max_frame_size),
                send_all_ok(self@.streams, self@.order.skip(i as int), *global_window_size, max_frame_size),
                ({
                    let rest = send_all(self@.streams, self@.order.skip(i as int), *global_window_size, max_frame_size);
                    &&& all.0 == rest.0
                    &&& all.1 == rest.1
                    &&& all.2 == out@ + rest.2
                }),
            decreases self.ids@.len() - i,
        {
            let index = self.ids[i];
            let ghost m0 = self@.streams;
            let ghost g0 = *global_window_size;
            let ghost before = out@;
            assert(self@.order.skip(i as int)[0] == index);
            assert(self@.order.skip(i as int).drop_first() =~= self@.order.skip(i + 1));
            if self.streams.contains_key(&index) {
                let has = match self.streams.get(&index) {
                    Some(s) => s.has_data_to_send(),
                    None => false,
                };
                if has {
                    let mut bytes = self.try_send_data_at(index, global_window_size, max_frame_size);
                    out.append(&mut bytes);
                    assert(out@ == before + send_step(m0[index], g0, max_frame_size).2);
                }
            }
            proof {
                let rest = send_all(self@.streams, self@.order.skip(i + 1), *global_window_size, max_frame_size);
                assert(all.2 == out@ + rest.2);
            }
            i = i + 1;
        }
        assert(self@.order.skip(i as int) =~= Seq::<u32>::empty());
        assert(out@ + seq![] =~= out@);
        out
    }

    /// Whether every stream is safe to send from (see `stream_send_safe`),
    /// stream `index`, if registered, taken with window `window`.
    pub fn sends_safe_with(&self, index: u32, window: i64, max_frame_size: usize) -> (r: bool)
        requires
            manager_wf(self@),
        ensures
            r == (forall|k: u32| #[trigger]
                self@.streams.contains_key(k) ==> stream_send_safe(
                    if k == index {
                        StreamView { window, ..self@.streams[k] }
                    } else {
                        self@.streams[k]
                    },
                    max_frame_size,
                )),
    {
        let mut i: usize = 0;
        while i < self.ids.len()
            invariant
                i <= self.ids@.len(),
                manager_wf(self@),
                forall|j: int| 0 <= j < i ==> ({
                    let k = #[trigger] self.ids@[j];
                    stream_send_safe(
                        if k == index {
                            StreamView { window, ..self@.streams[k] }
                        } else {
                            self@.streams[k]
                        },
                        max_frame_size,
                    )
                }),
            decreases self.ids@.len() - i,
        {
            let k = self.ids[i];
            assert(self@.order.contains(k));
            let ok = match self.streams.get(&k) {
                Some(s) => s.send_safe_with(
                    if k == index {
                        window
                    } else {
                        s.window()
                    },
                    max_frame_size,
                ),
                None => true,
            };
            if !ok {
                return false;
            }
            i = i + 1;
        }
        assert forall|k: u32| #[trigger] self@.streams.contains_key(k) implies stream_send_safe(
            if k == index {
                StreamView { window, ..self@.streams[k] }
            } else {
                self@.streams[k]
            },
            max_frame_size,
        ) by {
            assert(self@.order.contains(k));
            let j = choose|j: int| 0 <= j < self.ids@.len() && self.ids@[j] == k;
            assert(self.ids@[j] == k);
        }
        true
    }

    /// Sends `response` on stream `index` (see `Stream::respond_to`).
    pub fn respond_at(
        &mut self,
        index: u32,
        response: Response,
        global_window_size: &mut i64,
        max_frame_size: usize,
        encoder: &mut fluke_hpack::Encoder,
    ) -> (r: Vec<u8>)
        requires
            manager_wf(old(self)@),
            old(self)@.streams.contains_key(index),
            old(self)@.streams[index].request is Some,
            response.body matches Some(b) ==> send_step_ok(
                StreamView { pending: Some(b@), ..old(self)@.streams[index] },
                *old(global_window_size),
                max_frame_size,
            ),
        ensures
            manager_wf(final(self)@),
            encoder_table(*final(encoder)) == hpack_encoding_table(
                encoder_table(*old(encoder)),
                encoder_table_limit(*old(encoder)),
                response_header_list(response@),
            ),
            encoder_table_limit(*final(encoder)) == encoder_table_limit(*old(encoder)),
            match response@.body {
                None => final(self)@ == old(self)@ && *final(global_window_size) == *old(global_window_size)
                    && r@ == frame_bytes(
                    FrameType::Headers,
                    0x05,
                    index,
                    encoded_by(*old(encoder), response_header_list(response@)),
                ),
                Some(b) => {
                    let (s, g, d) = send_step(
                        StreamView { pending: Some(b), ..old(self)@.streams[index] },
                        *old(global_window_size),
                        max_frame_size,
                    );
                    &&& final(self)@ == (StreamManagerView { streams: old(self)@.streams.insert(index, s), ..old(self)@ })
                    &&& *final(global_window_size) == g
                    &&& r@ == frame_bytes(
                        FrameType::Headers,
                        0x04,
                        index,
                        encoded_by(*old(encoder), response_header_list(response@)),
                    ) + d
                },
            },
    {
        let mut s = self.take(index);
        let r = s.respond_to(response, global_window_size, max_frame_size, encoder);
        let ghost sv = s@;
        self.put(index, s);
        assert(old(self)@.streams.remove(index).insert(index, sv) =~= old(self)@.streams.insert(index, sv));
        assert(old(self)@.streams.remove(index).insert(index, old(self)@.streams[index]) =~= old(self)@.streams);
        r
    }
}

/// Whether `bytes` is a run of whole frames, each announcing, and carrying,
/// a payload of at most `max` bytes.
pub open spec fn frames_at_most(bytes: Seq<u8>, max: nat) -> bool
    decreases bytes.len(),
{
    if bytes.len() == 0 {
        true
    } else if bytes.len() < 9 {
        false
    } else {
        let len = crate::wire::be_value(bytes.subrange(0, 3));
        if len > max || 9 + len > bytes.len() {
            false
        } else {
            frames_at_most(bytes.skip(9 + len as int), max)
        }
    }
}

/// A frame of a payload of at most `max` (and fewer than 2^24) bytes, in
/// front of a run of such frames, makes a run of such frames.
proof fn lemma_frame_then_frames(
    frame_type: FrameType,
    flags: u8,
    id: u32,
    payload: Seq<u8>,
    rest: Seq<u8>,
    max: nat,
)
    requires
        payload.len() <= max,
        payload.len() < 0x100_0000,
        frames_at_most(rest, max),
    ensures
        frames_at_most(frame_bytes(frame_type, flags, id, payload) + rest, max),
{
    let b = frame_bytes(frame_type, flags, id, payload) + rest;
    let n = payload.len();
    crate::wire::lemma_u24_be_roundtrip(n as u32);
    assert(b.subrange(0, 3) =~= crate::wire::u24_be(n as u32));
    assert(b.skip(9 + n as int) =~= rest);
}

/// Every frame of a sending plan cut in pieces of at most `chunk` bytes
/// carries at most `max` bytes, when `chunk` is at most `max`.
proof fn lemma_send_plan_frames_fit(
    id: u32,
    data: Seq<u8>,
    chunk: nat,
    window: i64,
    global: i64,
    sent: nat,
    max: nat,
)
    requires
        chunk <= max,
        max < 0x100_0000,
    ensures
        frames_at_most(send_plan(id, data, chunk, window, global, sent).bytes, max),
    decreases data.len() - sent,
{
    if sent >= data.len() || chunk == 0 {
    } else {
        let len: nat = if chunk <= data.len() - sent {
            chunk
        } else {
            (data.len() - sent) as nat
        };
        if (window as usize) < len || (global as usize) < len {
        } else {
            let flags: u8 = if sent + len == data.len() {
                0x01
            } else {
                0x00
            };
            lemma_send_plan_frames_fit(id, data, chunk, (window - len) as i64, (global - len) as i64, sent + len, max);
            let rest = send_plan(id, data, chunk, (window - len) as i64, (global - len) as i64, sent + len);
            lemma_frame_then_frames(
                FrameType::Data,
                flags,
                id,
                data.subrange(sent as int, (sent + len) as int),
                rest.bytes,
                max,
            );
        }
    }
}

/// Flow control and frame size: whatever the windows, a round of sending a
/// pending body writes whole DATA frames that each carry at most the maximum
/// frame size, so a body larger than that goes out in several frames.
pub proof fn lemma_sent_frames_fit_max_frame_size(s: StreamView, global: i64, max_frame_size: usize)
    requires
        s.pending is Some,
        max_frame_size < 0x100_0000,
    ensures
        frames_at_most(send_step(s, global, max_frame_size).2, max_frame_size as nat),
{
    let d = s.pending.unwrap();
    if s.window == 0 || global == 0 {
    } else {
        lemma_send_plan_frames_fit(
            s.id,
            d,
            chunk_size(max_frame_size, s.window),
            s.window,
            global,
            0,
            max_frame_size as nat,
        );
    }
}

} // verus!
