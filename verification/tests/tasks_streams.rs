use raptor::request::{HttpRequest, RequestError, RequestType};
use raptor::response::Response;
use raptor::tasks::frames::{
    Continuation, Data, Frame, FrameError, FrameType, HeaderStatus, Headers, SerializeFrame, SettingType,
    Settings, WindowUpdate,
};
use raptor::tasks::request::Http2Request;
use raptor::tasks::server::{handle_connection_preface, handle_frame, window_update_target, FrameAction, WindowTarget};
use raptor::tasks::streams::{ConnectionSettings, JobStep, Stream, StreamFrame};

fn frame(length: u32, frame_type: FrameType, flags: u8, stream_id: u32) -> Frame {
    Frame { length, frame_type, flags, stream_id }
}

fn data_frame(id: u32, chunk: &[u8]) -> Vec<u8> {
    let len = chunk.len() as u32;
    let mut v = vec![(len >> 16) as u8, (len >> 8) as u8, len as u8, 0, 0x01];
    v.extend_from_slice(&id.to_be_bytes());
    v.extend_from_slice(chunk);
    v
}

fn response(body: Option<&[u8]>) -> Response {
    Response { code: 200, headers: vec![(b"server".to_vec(), b"raptor".to_vec())], body: body.map(|b| b.to_vec()) }
}

#[test]
fn body_sent_in_pieces_of_the_smaller_window() {
    let mut stream = Stream::new(3, 4);
    let headers = stream.start_response(response(Some(b"abcdefghij")));
    assert_eq!(headers.flags, 0x04);
    match &headers.headers {
        HeaderStatus::Complete(list) => {
            assert_eq!(list[0], (b":status".to_vec(), b"200".to_vec()));
            assert_eq!(list[1], (b"server".to_vec(), b"raptor".to_vec()));
        }
        HeaderStatus::Partial(_) => panic!("partial"),
    }
    let mut global = 10u32;
    let frames = stream.send_data_within_control_flow(&mut global);
    // Pieces of min(4, 10) = 4 bytes: the first fits, the second does not
    // (the stream window is then 0).
    assert_eq!(frames, vec![data_frame(3, b"abcd")]);
    assert_eq!(global, 6);
    assert!(stream.has_pending());
}

#[test]
fn window_update_resumes_the_body() {
    let mut stream = Stream::new(1, 3);
    stream.start_response(response(Some(b"hello")));
    let mut global = 100u32;
    let first = stream.send_data_within_control_flow(&mut global);
    assert_eq!(first, vec![data_frame(1, b"hel")]);
    assert_eq!(global, 97);
    // The window grows by 10; the body is sent again from its start, in
    // pieces of min(10, 97) bytes, as the server does.
    let step = stream.on_frame(StreamFrame::WindowUpdate(WindowUpdate { stream: 1, size_increment: 10 }), &mut global);
    match step {
        JobStep::Send(frames) => assert_eq!(frames, vec![data_frame(1, b"hello")]),
        _ => panic!("expected frames"),
    }
    assert_eq!(global, 92);
}

#[test]
fn response_without_body_ends_the_stream() {
    let mut stream = Stream::new(5, 65535);
    let headers = stream.start_response(response(None));
    assert_eq!(headers.flags, 0x05);
    assert!(!stream.has_pending());
    let mut global = 7u32;
    assert!(stream.send_data_within_control_flow(&mut global).is_empty());
    assert_eq!(global, 7);
}

#[test]
fn push_promise_and_headers_steps() {
    let mut stream = Stream::new(2, 10);
    let mut global = 1u32;
    assert!(matches!(stream.on_frame(StreamFrame::PushPromise, &mut global), JobStep::Wait));
    let h = Headers::new(0x05, HeaderStatus::Complete(vec![]));
    match stream.on_frame(StreamFrame::Header(h), &mut global) {
        JobStep::Handle(h) => assert_eq!(h.flags, 0x05),
        _ => panic!("expected a request"),
    }
    assert!(matches!(
        stream.on_frame(StreamFrame::WindowUpdate(WindowUpdate { stream: 2, size_increment: 1 }), &mut global),
        JobStep::Wait
    ));
}

#[test]
fn settings_change_the_initial_window() {
    let mut conn = ConnectionSettings::new();
    let settings = Settings { is_ack: false, settings: vec![(SettingType::InitialWindowSize, 100_000)] };
    let step = conn.apply(&settings);
    assert_eq!(step.stream_window_delta, Some(100_000 - 65535));
    assert!(step.send_ack);
    assert_eq!(conn.initial_window_size, 100_000);
    let same = conn.apply(&Settings { is_ack: true, settings: vec![(SettingType::InitialWindowSize, 100_000)] });
    assert_eq!(same.stream_window_delta, None);
    assert!(!same.send_ack);
}

#[test]
fn frames_dispatch() {
    assert!(matches!(handle_frame(&frame(0, FrameType::Settings, 0, 0)), FrameAction::Settings));
    assert!(matches!(handle_frame(&frame(5, FrameType::Priority, 0, 0)), FrameAction::Priority(Err(FrameError::PriorityFrameStreamZero))));
    assert!(matches!(handle_frame(&frame(5, FrameType::Priority, 0, 1)), FrameAction::Priority(Ok(()))));
    assert!(matches!(handle_frame(&frame(3, FrameType::Header, 4, 9)), FrameAction::Header(9)));
    assert!(matches!(handle_frame(&frame(3, FrameType::PushPromise, 4, 9)), FrameAction::PushPromise(9)));
    assert!(matches!(handle_frame(&frame(3, FrameType::Continuation, 4, 9)), FrameAction::Continuation(9)));
    assert!(matches!(handle_frame(&frame(4, FrameType::WindowUpdate, 0, 9)), FrameAction::WindowUpdate));
    let f = frame(4, FrameType::WindowUpdate, 0, 9);
    assert_eq!(window_update_target(&WindowUpdate { stream: 9, size_increment: 5 }, &f), WindowTarget::Stream(9));
    assert_eq!(window_update_target(&WindowUpdate { stream: 0, size_increment: 5 }, &f), WindowTarget::Connection(5));
}

#[test]
fn task_preface_check() {
    assert!(handle_connection_preface(b"PRI * HTTP/2.0\r\n\r\nSM\r\n\r\n"));
    assert!(!handle_connection_preface(b"PRI * HTTP/2.0\r\n\r\nSM\r\n\r\r"));
}

#[test]
fn continuation_and_partial_headers() {
    let mut decoder = fluke_hpack::Decoder::new();
    let mut encoder = fluke_hpack::Encoder::new();
    let block = encoder.encode(vec![(&b":method"[..], &b"GET"[..]), (&b":path"[..], &b"/a.txt"[..])]);
    let (first, rest) = block.split_at(3);
    let mut headers = Headers::parse_header_frame(&frame(3, FrameType::Header, 0x01, 1), &mut decoder, first.to_vec())
        .expect("partial block");
    assert!(matches!(&headers.headers, HeaderStatus::Partial(b) if b.as_slice() == first));
    assert!(headers.get_type().is_err());
    assert!(Continuation::from_frame(&frame(1, FrameType::Continuation, 4, 0), vec![]).is_err());
    let cont = Continuation::from_frame(&frame(rest.len() as u32, FrameType::Continuation, 4, 1), rest.to_vec()).unwrap();
    assert!(cont.has_end_headers());
    headers.consume_contination(&cont);
    headers.decode_headers(&mut decoder).expect("decodes");
    assert_eq!(headers.get_type(), Ok(RequestType::Get));
    assert_eq!(headers.get_uri(), Ok(&b"/a.txt"[..]));
    assert!(headers.has_end_stream());
    assert!(!headers.has_end_headers());
}

#[test]
fn methods_are_compared_exactly() {
    let get = Headers::new(5, HeaderStatus::Complete(vec![(b":method".to_vec(), b"get".to_vec())]));
    assert_eq!(get.get_type(), Err(RequestError::MalformedRequest));
    let req = Http2Request::new(b"get".to_vec(), Some(b"/x".to_vec()));
    assert_eq!(req.get_type(), Err(RequestError::UnsupportedMethod(b"get")));
    let req = Http2Request::new(b"DELETE".to_vec(), None);
    assert_eq!(req.get_type(), Ok(RequestType::Delete));
    assert_eq!(req.get_uri(), Err(RequestError::MalformedRequest));
}

#[test]
fn data_frame_serialization() {
    let data = Data::from_response(response(Some(b"xyz")));
    assert_eq!(data.flags, 0);
    let mut f = frame(0, FrameType::Data, 0x09, 4);
    let payload = data.serialize_frame(&mut f, None);
    assert_eq!(payload, b"xyz".to_vec());
    assert_eq!(f.length, 3);
    assert_eq!(f.flags, 0);
}

#[test]
fn answer_sends_the_encoded_headers_and_ends_without_body() {
    let mut stream = Stream::new(5, 100);
    let mut encoder = fluke_hpack::Encoder::new();
    let mut global: u32 = 1000;
    let answer = stream.answer(response(None), &mut encoder, &mut global);
    assert!(answer.finished);
    assert!(answer.data_frames.is_empty());
    let mut fresh = fluke_hpack::Encoder::new();
    let block = fresh.encode(vec![(&b":status"[..], &b"200"[..]), (&b"server"[..], &b"raptor"[..])]);
    let mut expected = Frame { length: block.len() as u32, frame_type: FrameType::Header, flags: 0x05, stream_id: 5 }.to_bytes();
    expected.extend_from_slice(&block);
    assert_eq!(answer.headers_frame, expected);
    assert_eq!(global, 1000);
}

#[test]
fn answer_with_body_sends_what_the_windows_allow_and_goes_on() {
    let mut stream = Stream::new(5, 3);
    let mut encoder = fluke_hpack::Encoder::new();
    let mut global: u32 = 1000;
    let answer = stream.answer(response(Some(b"hello")), &mut encoder, &mut global);
    assert!(!answer.finished);
    assert_eq!(answer.headers_frame[4], 0x04);
    assert_eq!(answer.data_frames, vec![data_frame_flags(5, b"hel", 0x01)]);
    assert_eq!(global, 997);
    assert!(stream.has_pending());
}

fn data_frame_flags(id: u32, chunk: &[u8], flags: u8) -> Vec<u8> {
    let mut v = data_frame(id, chunk);
    v[4] = flags;
    v
}
