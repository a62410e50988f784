use raptor::tasks::server::ConnectionData;
use raptor::tasks::frames::{
    check_check_priority_frame, Frame, FrameError, FrameType, SettingType, Settings, WindowUpdate,
    FRAME_HEADER_SIZE, PRIORITY_FRAME_SIZE,
};

/// A SETTINGS frame of 18 bytes: MAX_CONCURRENT_STREAMS 100,
/// INITIAL_WINDOW_SIZE 2^30, ENABLE_PUSH 0.
const SETTINGS_FRAME1: [u8; 27] = [
    0x00, 0x00, 0x12, 0x04, 0x00, 0x00, 0x00, 0x00, 0x00, //
    0x00, 0x03, 0x00, 0x00, 0x00, 0x64, //
    0x00, 0x04, 0x40, 0x00, 0x00, 0x00, //
    0x00, 0x02, 0x00, 0x00, 0x00, 0x00,
];

/// A SETTINGS acknowledgement: a header alone.
const SETTINGS_ACK: [u8; 9] = [0x00, 0x00, 0x00, 0x04, 0x01, 0x00, 0x00, 0x00, 0x00];

/// A WINDOW_UPDATE on stream 0 of 0x3FFF0001.
const WINDOW_UPDATE_FRAME1: [u8; 13] = [
    0x00, 0x00, 0x04, 0x08, 0x00, 0x00, 0x00, 0x00, 0x00, 0x3f, 0xff, 0x00, 0x01,
];

/// The header of a HEADERS frame of 196 bytes on stream 1, END_HEADERS set.
const HEADER_FRAME1_HEADER: [u8; 9] = [0x00, 0x00, 0xc4, 0x01, 0x04, 0x00, 0x00, 0x00, 0x01];

fn frame(length: u32, frame_type: FrameType, flags: u8, stream_id: u32) -> Frame {
    Frame { length, frame_type, flags, stream_id }
}

#[test]
fn priority_non_zero_stream() {
    let frame = frame(PRIORITY_FRAME_SIZE as u32, FrameType::Priority, 0, 0);
    let result = check_check_priority_frame(&frame);
    assert!(result.is_err());
    match result.unwrap_err() {
        FrameError::PriorityFrameStreamZero => (),
        _ => panic!("Error is not correct"),
    }
}

#[test]
fn priority_bad_length() {
    let frame = frame(51, FrameType::Priority, 0, 0);
    let result = check_check_priority_frame(&frame);
    assert!(result.is_err());
    match result.unwrap_err() {
        FrameError::BadPriorityFrameSize(51) => (),
        _ => panic!("Error is not correct"),
    }
}

#[test]
fn priority_correct_frame() {
    let frame = frame(PRIORITY_FRAME_SIZE as u32, FrameType::Priority, 0, 2);
    let result = check_check_priority_frame(&frame);
    assert!(result.is_ok());
}

#[test]
fn valid_setting_parse() {
    let frame = frame(18, FrameType::Settings, 0, 0);
    let expected_settings = [
        (SettingType::MaxConcurrentStreams, 100),
        (SettingType::InitialWindowSize, 1073741824),
        (SettingType::EnablePush, 0),
    ];
    let result = Settings::from_payload_bytes(&frame, &SETTINGS_FRAME1[FRAME_HEADER_SIZE..])
        .expect("Should succeed");
    assert!(!result.is_ack);
    assert_eq!(result.settings, expected_settings);
}

#[test]
fn parse_setting_ack() {
    let frame = frame(18, FrameType::Settings, 0, 0);
    let result =
        Settings::from_payload_bytes(&frame, &SETTINGS_ACK[FRAME_HEADER_SIZE..]).expect("Should succeed");
    assert!(!result.is_ack);
    assert!(result.settings.is_empty());
}

#[test]
fn setting_stream_not_zero() {
    let frame = frame(18, FrameType::Settings, 0, 42);
    let result = Settings::from_payload_bytes(&frame, &[]);
    assert!(result.is_err());
    match result.unwrap_err() {
        FrameError::SettingNotStreamZero => (),
        _ => panic!("Incorrect error"),
    }
}

#[test]
fn settings_incorrect_length() {
    let frame = frame(25, FrameType::Settings, 0, 0);
    let result = Settings::from_payload_bytes(&frame, &[]);
    assert!(result.is_err());
    match result.unwrap_err() {
        FrameError::BadSettingsLength(25) => (),
        _ => panic!("Incorrect error"),
    }
}

#[test]
fn parse_good_frame() {
    let result = WindowUpdate::parse_frame(
        &frame(4, FrameType::WindowUpdate, 0, 0),
        &WINDOW_UPDATE_FRAME1[FRAME_HEADER_SIZE..],
    );
    assert!(result.is_ok());
    let window_update = result.unwrap();
    assert_eq!(window_update.stream, 0);
    assert_eq!(window_update.size_increment, 1073676289);
}

#[test]
fn test_frame_header_parsing() {
    let cases: [(&[u8], Frame); 3] = [
        (&SETTINGS_FRAME1, frame(18, FrameType::Settings, 0, 0)),
        (&HEADER_FRAME1_HEADER, frame(196, FrameType::Header, 0x04, 1)),
        (&WINDOW_UPDATE_FRAME1, frame(4, FrameType::WindowUpdate, 0, 0)),
    ];
    for (bytes, expected_frame) in cases {
        let frame = Frame::try_from(bytes).expect("Failed to parse message");
        assert_eq!(frame, expected_frame);
    }
}

#[test]
fn frame_header_errors() {
    assert!(matches!(Frame::try_from(&[0u8; 8]), Err(FrameError::NotEnoughData(8))));
    assert!(matches!(
        Frame::try_from(&[0, 0, 0, 10, 0, 0, 0, 0, 0]),
        Err(FrameError::UnknownFrame(10))
    ));
    assert!(matches!(
        Frame::try_from(&[0, 0, 0, 4, 0, 0x80, 0, 0, 0]),
        Err(FrameError::ReservedBitSet)
    ));
    // The other bits of the identifier are kept.
    let f = Frame::try_from(&[0, 0, 0, 4, 0, 0x7f, 0, 0, 1]).unwrap();
    assert_eq!(f.stream_id, 0x7f00_0001);
    let f = Frame::try_from(&[0, 0, 0, 4, 0, 0x08, 0, 0, 1]).unwrap();
    assert_eq!(f.stream_id, 0x0800_0001);
}

#[test]
fn frame_header_written_and_read_back() {
    let f = frame(0x01_02_03, FrameType::Continuation, 0x04, 7);
    let bytes = f.to_bytes();
    assert_eq!(bytes, vec![0x01, 0x02, 0x03, 0x09, 0x04, 0, 0, 0, 7]);
    assert_eq!(Frame::try_from(bytes.as_slice()).unwrap(), f);
}

#[test]
fn settings_with_unknown_and_ack_flags() {
    let payload = [0x00, 0x09, 0, 0, 0, 1, 0x00, 0x05, 0, 0, 0x40, 0x00];
    let s = Settings::from_payload_bytes(&frame(12, FrameType::Settings, 0x01, 0), &payload).unwrap();
    assert!(s.is_ack);
    assert_eq!(s.settings, vec![(SettingType::MaxFrameSize, 0x4000)]);
    // Only flags of exactly 0x01 make an acknowledgement.
    let s = Settings::from_payload_bytes(&frame(12, FrameType::Settings, 0x03, 0), &payload).unwrap();
    assert!(!s.is_ack);
}

#[test]
fn window_update_bad_length() {
    let result = WindowUpdate::parse_frame(&frame(5, FrameType::WindowUpdate, 0, 3), &[0, 0, 0, 1]);
    assert!(matches!(result, Err(FrameError::BadLengthWindowUpdate(5))));
}

/// The bytes of a hexadecimal string.
fn hex_bytes(s: &str) -> Vec<u8> {
    (0..s.len()).step_by(2).map(|i| u8::from_str_radix(&s[i..i + 2], 16).unwrap()).collect()
}

/// A whole frame: its 9-byte header, then the payload.
fn frame_with(frame: &Frame, payload: &[u8]) -> Vec<u8> {
    let mut out = frame.to_bytes();
    out.extend_from_slice(payload);
    out
}

/// The HPACK block of a server's response headers (Huffman-coded strings and
/// raw ones, names indexed where the static table has them): 196 bytes.
const RESPONSE_BLOCK: &str = "886196dd6d5f4a044a436cca08017940bb71905c682a62d1bf5f87497ca58ae819aa6c96df697e9403ca681fa50400bca059b8db3704253168df620d2235616631616264322d33652252848fd24a8f5c82705f408ff2b4632752d522d3947216c5ac4a7f8602e0009c69bf7686aa69d29afcff7c8712954d3a535f9f408bf2b4b60e92ac7ad263d48f89dd0e8c1ab6e4c5934f408cf2b794216aec3a4a4498f57f8a0fda949e42c11d07275f4090f2b10f524b52564faacab1eb498f523f85a8e8a8d2cb";

/// The HPACK block of a client's GET request headers: 40 bytes.
const REQUEST_BLOCK: &str = "82440b2f68756d616e732e747874864188aa69d29ac4b9ec9b7a8825b650c3abb815c15383f963e7";

fn assert_decoded(headers: &[(Vec<u8>, Vec<u8>)], expected: &[(Vec<u8>, Vec<u8>)]) {
    assert_eq!(headers.len(), expected.len());
    for ((key, value), (expected_key, expected_value)) in headers.iter().zip(expected) {
        assert_eq!(key, expected_key, "got: {} expected: {}", String::from_utf8_lossy(key), String::from_utf8_lossy(expected_key));
        assert_eq!(value, expected_value, "got: {} expected: {}", String::from_utf8_lossy(value), String::from_utf8_lossy(expected_value));
    }
}

#[test]
fn parse_correct_header_response() {
    let frame = Frame { length: 196, frame_type: FrameType::Header, flags: 0x04, stream_id: 1 };
    let header_bytes = frame_with(&frame, &hex_bytes(RESPONSE_BLOCK));
    assert_eq!(header_bytes.len(), 205);
    let expected_headers: [(Vec<u8>, Vec<u8>); 13] = [
        (b":status".to_vec(), b"200".to_vec()),
        (b"date".to_vec(), b"Sun, 12 Aug 2018 17:30:41 GMT".to_vec()),
        (b"content-type".to_vec(), b"text/plain".to_vec()),
        (b"last-modified".to_vec(), b"Tue, 08 May 2018 13:53:22 GMT".to_vec()),
        (b"etag".to_vec(), b"\"5af1abd2-3e\"".to_vec()),
        (b"accept-ranges".to_vec(), b"bytes".to_vec()),
        (b"content-length".to_vec(), b"62".to_vec()),
        (b"x-backend-header-rtt".to_vec(), b"0.002645".to_vec()),
        (b"server".to_vec(), b"nghttpx".to_vec()),
        (b"via".to_vec(), b"2 nghttpx".to_vec()),
        (b"x-frame-options".to_vec(), b"SAMEORIGIN".to_vec()),
        (b"x-xss-protection".to_vec(), b"1; mode=block".to_vec()),
        (b"x-content-type-options".to_vec(), b"nosniff".to_vec()),
    ];
    let mut decoder = fluke_hpack::Decoder::new();
    let result = raptor::tasks::frames::Headers::parse_header_frame(
        &frame,
        &mut decoder,
        header_bytes[FRAME_HEADER_SIZE..].to_vec(),
    );
    let frame = match result {
        Ok(f) => f,
        Err(e) => panic!("Should be correct: {:?}", e),
    };
    assert!(!frame.has_end_stream());
    assert!(frame.has_end_headers());
    let raptor::tasks::frames::HeaderStatus::Complete(headers) = frame.headers else {
        panic!("Partial headers");
    };
    assert_decoded(&headers, &expected_headers);
}

#[test]
fn parse_correct_header_request() {
    let frame = Frame { length: 40, frame_type: FrameType::Header, flags: 0x05, stream_id: 1 };
    let header_bytes = frame_with(&frame, &hex_bytes(REQUEST_BLOCK));
    assert_eq!(header_bytes.len(), 49);
    let expected_headers: [(Vec<u8>, Vec<u8>); 6] = [
        (b":method".to_vec(), b"GET".to_vec()),
        (b":path".to_vec(), b"/humans.txt".to_vec()),
        (b":scheme".to_vec(), b"http".to_vec()),
        (b":authority".to_vec(), b"nghttp2.org".to_vec()),
        (b"user-agent".to_vec(), b"curl/7.61.0".to_vec()),
        (b"accept".to_vec(), b"*/*".to_vec()),
    ];
    let mut decoder = fluke_hpack::Decoder::new();
    let result = raptor::tasks::frames::Headers::parse_header_frame(
        &frame,
        &mut decoder,
        header_bytes[FRAME_HEADER_SIZE..].to_vec(),
    );
    let frame = match result {
        Ok(f) => f,
        Err(e) => panic!("Should be correct: {:?}", e),
    };
    assert!(frame.has_end_stream());
    assert!(frame.has_end_headers());
    let raptor::tasks::frames::HeaderStatus::Complete(headers) = frame.headers else {
        panic!("Partial headers");
    };
    assert_decoded(&headers, &expected_headers);
}

#[test]
fn truncated_size_update_is_refused_before_decoding() {
    // 0x3f announces a table size update whose integer goes on, but the
    // block ends: the decoder would panic on it.
    let frame = Frame { length: 1, frame_type: FrameType::Header, flags: 0x04, stream_id: 1 };
    let mut decoder = fluke_hpack::Decoder::new();
    let result = raptor::tasks::frames::Headers::parse_header_frame(&frame, &mut decoder, vec![0x3f]);
    assert!(matches!(result, Err(FrameError::HpackSizeUpdateCutShort)));
    assert!(raptor::hpack::check_hpack_block(&[0x3f, 0xe1, 0x1f, 0x82]));
    assert!(!raptor::hpack::check_hpack_block(&[0x82, 0x3f, 0xff]));
}

#[test]
fn connection_data_acknowledges_settings_and_adds_window_updates() {
    let mut data = ConnectionData::new();
    let settings = Settings { is_ack: false, settings: vec![(SettingType::InitialWindowSize, 1000)] };
    let out = data.on_settings(&settings);
    assert_eq!(out.bytes, vec![0, 0, 0, 4, 1, 0, 0, 0, 0]);
    assert_eq!(out.stream_window_delta, Some(1000 - 65535));
    assert_eq!(data.settings.initial_window_size, 1000);
    let ack = Settings { is_ack: true, settings: vec![] };
    assert!(data.on_settings(&ack).bytes.is_empty());
    let header = Frame { length: 4, frame_type: FrameType::WindowUpdate, flags: 0, stream_id: 0 };
    let out = data.on_window_update(&header, WindowUpdate { stream: 0, size_increment: 100 });
    assert!(out.stream_update.is_none());
    assert_eq!(data.global_control_flow, 65635);
    let header = Frame { length: 4, frame_type: FrameType::WindowUpdate, flags: 0, stream_id: 3 };
    let out = data.on_window_update(&header, WindowUpdate { stream: 3, size_increment: 7 });
    assert_eq!(out.stream_update.map(|(id, w)| (id, w.size_increment)), Some((3, 7)));
    assert_eq!(data.global_control_flow, 65635);
}
