use raptor::connection::http2::{
    go_away_frame_bytes, open_connection, reset_stream_frame_bytes, ConnectionError, ConnectionState, Next, Opening,
    StepOutput,
};
use raptor::request::{HttpRequest, RequestType};
use raptor::response::Response;

const PREFACE: &[u8] = b"PRI * HTTP/2.0\r\n\r\nSM\r\n\r\n";

fn header(length: usize, frame_type: u8, flags: u8, stream: u32) -> Vec<u8> {
    let mut v = vec![(length >> 16) as u8, (length >> 8) as u8, length as u8, frame_type, flags];
    v.extend_from_slice(&stream.to_be_bytes());
    v
}

fn frame(frame_type: u8, flags: u8, stream: u32, payload: &[u8]) -> Vec<u8> {
    let mut v = header(payload.len(), frame_type, flags, stream);
    v.extend_from_slice(payload);
    v
}

/// A SETTINGS payload is read only when more than its length is there: one byte more.
fn with_extra(mut bytes: Vec<u8>) -> Vec<u8> {
    bytes.push(0);
    bytes
}

fn open() -> ConnectionState {
    let mut buffer = PREFACE.to_vec();
    match open_connection(&mut buffer) {
        Opening::Accepted(conn, _) => conn,
        Opening::Refused(_) => panic!("preface refused"),
    }
}

fn step(conn: &mut ConnectionState, buffer: &mut Vec<u8>) -> StepOutput {
    assert!(conn.can_step(buffer));
    conn.step(buffer)
}

fn request_block(path: &[u8]) -> Vec<u8> {
    let mut encoder = fluke_hpack::Encoder::new();
    encoder.encode(vec![
        (&b":method"[..], &b"GET"[..]),
        (&b":path"[..], path),
        (&b"user-agent"[..], &b"raptor-test-agent"[..]),
    ])
}

#[test]
fn preface_opens_with_server_settings() {
    let mut buffer = PREFACE.to_vec();
    buffer.extend_from_slice(&[1, 2, 3]);
    match open_connection(&mut buffer) {
        Opening::Accepted(_, settings) => {
            let mut expected = header(18, 4, 0, 0);
            expected.extend_from_slice(&[0, 3, 0, 0, 0x03, 0xe8, 0, 4, 0, 0, 0xff, 0xff, 0, 6, 0, 0, 0, 100]);
            assert_eq!(settings, expected);
        }
        Opening::Refused(_) => panic!("refused"),
    }
    assert_eq!(buffer, vec![1, 2, 3]);
}

#[test]
fn bad_preface_is_refused_with_go_away() {
    let mut buffer = b"GET / HTTP/1.1\r\n\r\n".to_vec();
    match open_connection(&mut buffer) {
        Opening::Refused(bytes) => {
            let mut payload = vec![0, 0, 0, 0, 0, 0, 0, 1];
            payload.extend_from_slice(b"ProtocolError");
            assert_eq!(bytes, frame(7, 0, 0, &payload));
        }
        Opening::Accepted(..) => panic!("accepted"),
    }
    assert_eq!(buffer, b"GET / HTTP/1.1\r\n\r\n".to_vec());
}

#[test]
fn settings_are_acknowledged() {
    let mut conn = open();
    let mut buffer = frame(4, 0, 0, &[0, 4, 0, 0, 0, 10, 0, 5, 0, 0, 0x40, 0x01]);
    buffer.push(0xaa);
    let out = step(&mut conn, &mut buffer);
    assert!(matches!(out.next, Next::Continue));
    assert_eq!(out.bytes, header(0, 4, 1, 0));
    assert_eq!(buffer, vec![0xaa]);
}

#[test]
fn settings_ack_and_errors() {
    let mut conn = open();
    let mut buffer = frame(4, 1, 0, &[]);
    let out = step(&mut conn, &mut buffer);
    assert!(matches!(out.next, Next::Continue) && out.bytes.is_empty() && buffer.is_empty());
    let mut buffer = frame(4, 1, 0, &[0; 6]);
    assert!(matches!(step(&mut conn, &mut buffer).next, Next::Fail(ConnectionError::NonZeroSettingsAckLength)));
    let mut buffer = frame(4, 0, 3, &[]);
    assert!(matches!(step(&mut conn, &mut buffer).next, Next::Fail(ConnectionError::SettingsNonDefaultSream)));
    let mut buffer = frame(4, 0, 0, &[0; 5]);
    assert!(matches!(step(&mut conn, &mut buffer).next, Next::Fail(ConnectionError::SettingsLengthNotMultipleOf6)));
    let mut buffer = with_extra(frame(4, 0, 0, &[0, 2, 0, 0, 0, 2]));
    assert!(matches!(step(&mut conn, &mut buffer).next, Next::Fail(ConnectionError::InvalidSettingValue(2))));
    let mut buffer = with_extra(frame(4, 0, 0, &[0, 5, 0, 0, 0, 1]));
    assert!(matches!(step(&mut conn, &mut buffer).next, Next::Fail(ConnectionError::InvalidSettingValue(1))));
    let mut buffer = with_extra(frame(4, 0, 0, &[0, 4, 0x80, 0, 0, 0]));
    assert!(matches!(
        step(&mut conn, &mut buffer).next,
        Next::Fail(ConnectionError::BadInitialWindowSize(0x8000_0000))
    ));
}

#[test]
fn settings_payload_not_all_there_waits() {
    let mut conn = open();
    // A payload is read once its announced length is there.
    let mut buffer = header(6, 4, 0, 0);
    buffer.extend_from_slice(&[0, 3, 0, 0]);
    let out = step(&mut conn, &mut buffer);
    assert!(matches!(out.next, Next::ReadMore));
    assert_eq!(buffer.len(), 13);
    buffer.extend_from_slice(&[0, 1]);
    let out = step(&mut conn, &mut buffer);
    assert!(matches!(out.next, Next::Continue));
    assert!(buffer.is_empty());
}

#[test]
fn ping_is_answered_with_the_same_data() {
    let mut conn = open();
    let data = [1, 2, 3, 4, 5, 6, 7, 8];
    let mut buffer = frame(6, 0, 0, &data);
    let out = step(&mut conn, &mut buffer);
    assert_eq!(out.bytes, frame(6, 1, 0, &data));
    assert!(buffer.is_empty());
    let mut buffer = frame(6, 1, 0, &data);
    let out = step(&mut conn, &mut buffer);
    assert!(out.bytes.is_empty() && buffer.is_empty());
    let mut buffer = frame(6, 0, 1, &data);
    assert!(matches!(step(&mut conn, &mut buffer).next, Next::Fail(ConnectionError::PingOnNon0Stream)));
    let mut buffer = frame(6, 0, 0, &data[..4]);
    assert!(matches!(step(&mut conn, &mut buffer).next, Next::Fail(ConnectionError::BadPingFrameSize)));
}

#[test]
fn window_update_errors() {
    let mut conn = open();
    let mut buffer = frame(8, 0, 0, &[0, 0, 0, 0]);
    assert!(matches!(step(&mut conn, &mut buffer).next, Next::Fail(ConnectionError::ZeroWindowUpdate)));
    let mut buffer = frame(8, 0, 0, &[0, 0, 0, 1, 0]);
    assert!(matches!(step(&mut conn, &mut buffer).next, Next::Fail(ConnectionError::BadLengthWindowUpdate(5))));
    let mut buffer = frame(8, 0, 0, &[0x7f, 0xff, 0xff, 0xff]);
    assert!(matches!(step(&mut conn, &mut buffer).next, Next::Fail(ConnectionError::WindowUpdateTooBig)));
    let mut buffer = frame(8, 0, 3, &[0x7f, 0xff, 0xff, 0xff]);
    let out = step(&mut conn, &mut buffer);
    assert_eq!(out.bytes, frame(3, 0, 3, &[0, 0, 0, 3]));
    assert!(matches!(out.next, Next::Continue));
    let mut buffer = header(4, 8, 0, 0);
    buffer.extend_from_slice(&[0, 0]);
    assert!(matches!(step(&mut conn, &mut buffer).next, Next::ReadMore));
}

#[test]
fn request_is_delivered_and_answered() {
    let mut conn = open();
    let block = request_block(b"/index.html");
    let mut buffer = frame(1, 0x05, 1, &block);
    let out = step(&mut conn, &mut buffer);
    assert!(matches!(out.next, Next::Respond(1)));
    assert!(buffer.is_empty());
    let headers = conn.request_headers(1).expect("request");
    assert_eq!(headers.get_type(), Ok(RequestType::Get));
    assert_eq!(headers.get_uri(), Ok(&b"/index.html"[..]));
    let response = Response { code: 200, headers: vec![], body: Some(b"hello".to_vec()) };
    assert!(conn.can_respond(1, Some(&b"hello"[..])));
    let bytes = conn.respond(1, response);
    // A HEADERS frame (END_HEADERS), then the body in one DATA frame with END_STREAM.
    assert_eq!(&bytes[3..9], &[1, 0x04, 0, 0, 0, 1]);
    let headers_len = ((bytes[0] as usize) << 16) | ((bytes[1] as usize) << 8) | bytes[2] as usize;
    assert_eq!(&bytes[9 + headers_len..], frame(0, 1, 1, b"hello").as_slice());
}

#[test]
fn small_window_leaves_the_rest_pending_until_updated() {
    let mut conn = open();
    let mut buffer = with_extra(frame(4, 0, 0, &[0, 4, 0, 0, 0, 5]));
    step(&mut conn, &mut buffer);
    let mut buffer = frame(1, 0x05, 1, &request_block(b"/"));
    assert!(matches!(step(&mut conn, &mut buffer).next, Next::Respond(1)));
    let response = Response { code: 200, headers: vec![], body: Some(b"0123456789AB".to_vec()) };
    let bytes = conn.respond(1, response);
    let headers_len = ((bytes[0] as usize) << 16) | ((bytes[1] as usize) << 8) | bytes[2] as usize;
    assert_eq!(&bytes[9 + headers_len..], frame(0, 0, 1, b"01234").as_slice());
    let mut buffer = frame(8, 0, 1, &[0, 0, 0, 10]);
    let out = step(&mut conn, &mut buffer);
    assert_eq!(out.bytes, frame(0, 1, 1, b"56789AB"));
}

#[test]
fn headers_over_several_reads_and_continuation() {
    let mut conn = open();
    let block = request_block(b"/split.txt");
    let cut = block.len() - 4;
    let mut buffer = header(cut, 1, 0x01, 3);
    buffer.extend_from_slice(&block[..2]);
    assert!(matches!(step(&mut conn, &mut buffer).next, Next::ReadMore));
    buffer.extend_from_slice(&block[2..cut]);
    // The fragment is all there but does not decode: CONTINUATION frames follow.
    assert!(matches!(step(&mut conn, &mut buffer).next, Next::Continue));
    assert!(buffer.is_empty());
    buffer.extend_from_slice(&frame(9, 0x04, 3, &block[cut..]));
    assert!(matches!(step(&mut conn, &mut buffer).next, Next::Respond(3)));
    let headers = conn.request_headers(3).expect("request");
    assert_eq!(headers.get_uri(), Ok(&b"/split.txt"[..]));
}

#[test]
fn other_frames() {
    let mut conn = open();
    let mut buffer = frame(9, 0x04, 1, &[0]);
    assert!(matches!(step(&mut conn, &mut buffer).next, Next::Fail(ConnectionError::ContinuationFrameWithoutHeaderFrame)));
    let mut buffer = frame(0, 0, 0, &[1, 2]);
    assert!(matches!(step(&mut conn, &mut buffer).next, Next::Fail(ConnectionError::DataOnStreamZero)));
    let mut buffer = frame(0, 0, 1, &[1, 2]);
    buffer.push(7);
    assert!(matches!(step(&mut conn, &mut buffer).next, Next::Continue));
    assert_eq!(buffer, vec![7]);
    let mut buffer = frame(2, 0, 0, &[0; 5]);
    assert!(matches!(step(&mut conn, &mut buffer).next, Next::Fail(ConnectionError::PriorityFrameOnStreamZero)));
    let mut buffer = frame(2, 0, 1, &[0; 4]);
    assert!(matches!(step(&mut conn, &mut buffer).next, Next::Fail(ConnectionError::BadLengthPriorityFrame(4))));
    let mut buffer = frame(2, 0, 1, &[0; 5]);
    assert!(matches!(step(&mut conn, &mut buffer).next, Next::Continue) && buffer.is_empty());
    let mut buffer = frame(3, 0, 1, &[0, 0, 0, 8]);
    assert!(matches!(step(&mut conn, &mut buffer).next, Next::Fail(ConnectionError::InvalidFrame)));
    let mut buffer = frame(1, 0x04, 0, &[0x82]);
    assert!(matches!(step(&mut conn, &mut buffer).next, Next::Fail(ConnectionError::HeaderOnStreamZero)));
    // An unknown type: its announced length is taken off the buffer, and more read.
    let mut buffer = frame(0x20, 0, 0, &[9, 9, 9]);
    assert!(matches!(step(&mut conn, &mut buffer).next, Next::ReadMore));
    assert_eq!(buffer.len(), 9);
    let mut buffer = vec![0, 0x40, 1, 0, 0, 0, 0, 0, 0];
    assert!(matches!(
        step(&mut conn, &mut buffer).next,
        Next::Fail(ConnectionError::FrameTooBig { actual: 0x4001, max_frame_size: 0x4000 })
    ));
    let mut buffer = vec![0, 0, 0];
    assert!(matches!(step(&mut conn, &mut buffer).next, Next::ReadMoreOrStop));
    let buffer = frame(5, 0x04, 1, &[0; 4]);
    assert!(!conn.can_step(&buffer));
}

#[test]
fn go_away_ends_the_connection() {
    let mut conn = open();
    let mut buffer = frame(7, 0, 3, &[0; 8]);
    assert!(matches!(step(&mut conn, &mut buffer).next, Next::Fail(ConnectionError::GoAwayOnNonDefaultStream)));
    let mut buffer = frame(7, 0, 0, &[0; 8]);
    assert!(matches!(step(&mut conn, &mut buffer).next, Next::Stop));
    let mut buffer = header(8, 7, 0, 0);
    assert!(matches!(step(&mut conn, &mut buffer).next, Next::ReadMore));
}

#[test]
fn reset_stream_clears_a_request() {
    let mut conn = open();
    let mut buffer = frame(1, 0x04, 1, &request_block(b"/"));
    assert!(matches!(step(&mut conn, &mut buffer).next, Next::Respond(1)));
    let mut buffer = frame(3, 0, 1, &[0, 0, 0, 8]);
    assert!(matches!(step(&mut conn, &mut buffer).next, Next::Continue));
    assert!(conn.request_headers(1).is_none());
}

#[test]
fn errors_are_answered_with_their_codes() {
    let bytes = go_away_frame_bytes(ConnectionError::FrameTooBig { actual: 1, max_frame_size: 1 });
    let mut payload = vec![0, 0, 0, 0, 0, 0, 0, 6];
    payload.extend_from_slice(b"FrameSizeError");
    assert_eq!(bytes, frame(7, 0, 0, &payload));
    let bytes = go_away_frame_bytes(ConnectionError::WindowUpdateTooBig);
    assert_eq!(&bytes[9..17], &[0, 0, 0, 0, 0, 0, 0, 3]);
    let bytes = go_away_frame_bytes(ConnectionError::BadRequest);
    assert_eq!(&bytes[9..17], &[0, 0, 0, 0, 0, 0, 0, 1]);
    assert_eq!(reset_stream_frame_bytes(5, ConnectionError::BadPingFrameSize), frame(3, 0, 5, &[0, 0, 0, 6]));
}

#[test]
fn shouting_header_names_are_refused() {
    let mut conn = open();
    let mut encoder = fluke_hpack::Encoder::new();
    let block = encoder.encode(vec![(&b":method"[..], &b"GET"[..]), (&b"X-UP"[..], &b"1"[..])]);
    let mut buffer = frame(1, 0x05, 1, &block);
    assert!(matches!(step(&mut conn, &mut buffer).next, Next::Fail(ConnectionError::InvalidFrame)));
}

#[test]
fn only_continuation_frames_may_follow_an_open_header_block() {
    let mut conn = open();
    let block = request_block(b"/c.txt");
    let cut = block.len() - 3;
    let mut buffer = header(cut, 1, 0x01, 3);
    assert!(matches!(step(&mut conn, &mut buffer).next, Next::ReadMore));
    buffer.extend_from_slice(&block[..cut]);
    assert!(matches!(step(&mut conn, &mut buffer).next, Next::Continue));
    let mut buffer = frame(6, 0, 0, &[0; 8]);
    assert!(matches!(step(&mut conn, &mut buffer).next, Next::Fail(ConnectionError::InvalidFrame)));
}

#[test]
fn response_headers_block_carries_status_then_headers() {
    let mut conn = open();
    let mut buffer = frame(1, 0x05, 1, &request_block(b"/"));
    assert!(matches!(step(&mut conn, &mut buffer).next, Next::Respond(1)));
    let response = Response { code: 404, headers: vec![(b"server".to_vec(), b"raptor".to_vec())], body: None };
    let bytes = conn.respond(1, response);
    // END_HEADERS and END_STREAM: there is no body.
    assert_eq!(&bytes[3..9], &[1, 0x05, 0, 0, 0, 1]);
    let mut decoder = fluke_hpack::Decoder::new();
    let list = decoder.decode(&bytes[9..]).unwrap();
    assert_eq!(list, vec![(b":status".to_vec(), b"404".to_vec()), (b"server".to_vec(), b"raptor".to_vec())]);
}

#[test]
fn cut_short_size_update_ends_the_connection() {
    let mut conn = open();
    let mut buffer = frame(1, 0x05, 1, &[0x3f]);
    assert!(matches!(step(&mut conn, &mut buffer).next, Next::Fail(ConnectionError::InvalidFrame)));
}

#[test]
fn window_may_reach_exactly_the_maximum() {
    let mut conn = open();
    let mut buffer = frame(1, 0x05, 1, &request_block(b"/"));
    assert!(matches!(step(&mut conn, &mut buffer).next, Next::Respond(1)));
    // 65535 + (2^31 - 1 - 65535) is 2^31 - 1: allowed, nothing is reset.
    let inc: u32 = 0x7fff_ffff - 65535;
    let mut buffer = frame(8, 0, 1, &inc.to_be_bytes());
    let out = step(&mut conn, &mut buffer);
    assert!(out.bytes.is_empty());
    assert!(matches!(out.next, Next::Continue));
}

#[test]
fn full_send_takes_the_bytes_off_the_stream_window() {
    let mut stream = raptor::http2::stream::Stream::new(1, 100);
    let h = raptor::http2::frames::Headers::new(&[(b":method".to_vec(), b"GET".to_vec())], true);
    stream.set_headers(h);
    let mut encoder = fluke_hpack::Encoder::new();
    let mut global: i64 = 1000;
    let response = Response { code: 200, headers: vec![], body: Some(b"hello".to_vec()) };
    stream.respond_to(response, &mut global, 16384, &mut encoder);
    assert_eq!(stream.window(), 95);
    assert_eq!(global, 995);
    assert!(!stream.has_data_to_send());
}
