use raptor::http2::frames::{
    ErrorType, Frame, FrameError, FrameType, GoAway, Headers, Ping, ResetStream, SettingKind, Settings, WindowUpdate,
};
use raptor::http2::response::{build_frame_header, ResponseSerialize};

#[test]
fn frame_header_is_read() {
    let f = Frame::try_from_bytes(&[0, 0, 18, 4, 0, 0, 0, 0, 0], 16384).unwrap();
    assert_eq!((f.length, f.frame_type, f.flags, f.stream_identifier), (18, FrameType::Settings, 0, 0));
    // The reserved bit is ignored; the other 31 bits are the identifier.
    let f = Frame::try_from_bytes(&[0, 0, 0, 1, 4, 0xff, 0, 0, 1], 16384).unwrap();
    assert_eq!(f.stream_identifier, 0x7f00_0001);
    let f = Frame::try_from_bytes(&[0, 0, 0, 1, 4, 0x01, 0, 0, 0], 16384).unwrap();
    assert_eq!(f.stream_identifier, 0x0100_0000);
    assert!(matches!(Frame::try_from_bytes(&[0; 8], 16384), Err(FrameError::BadFrameSize(8))));
    // A length equal to the maximum is allowed; one above it is too big.
    let f = Frame::try_from_bytes(&[0, 0x40, 0, 4, 0, 0, 0, 0, 0], 16384).unwrap();
    assert_eq!(f.length, 16384);
    assert!(matches!(
        Frame::try_from_bytes(&[0, 0x40, 1, 10, 0, 0, 0, 0, 0], 16384),
        Err(FrameError::FrameTooBig { actual: 16385, max_frame_size: 16384 })
    ));
    assert!(matches!(Frame::try_from_bytes(&[0, 0, 0, 10, 0, 0, 0, 0, 0], 16384), Err(FrameError::UnknownFrameNumber(10))));
}

#[test]
fn settings_are_read_and_written_back() {
    let payload = [0, 3, 0, 0, 0, 100, 0, 4, 0x40, 0, 0, 0, 0, 2, 0, 0, 0, 0, 0xff];
    let s = Settings::from_bytes(&payload, 18).unwrap();
    assert_eq!(s.get_setting(SettingKind::MaxConcurrentStreams), Some(100));
    assert_eq!(s.get_initial_window_size(), Some(1073741824));
    assert_eq!(s.is_push_enabled(), Some(0));
    assert_eq!(s.get_max_frame_size(), 16384);
    let mut out = Vec::new();
    build_frame_header(&mut out, FrameType::Settings, 0, &s, None);
    assert_eq!(&out[9..], &payload[..18]);
    assert!(Settings::from_bytes(&payload[..18], 18).is_ok());
    assert!(matches!(Settings::from_bytes(&payload[..17], 18), Err(FrameError::BadFrameSize(17))));
    assert!(matches!(Settings::from_bytes(&payload, 7), Err(FrameError::SettingsFrameSize(7))));
    let ack = Settings::new_ack();
    assert_eq!(ack.get_flags(), 1);
    assert_eq!(ack.compute_frame_length(None), 0);
}

#[test]
fn go_away_is_read() {
    let mut payload = vec![0, 0, 0, 5, 0, 0, 0, 3];
    payload.extend_from_slice(b"oops");
    let g = GoAway::from_bytes(&payload, 12).unwrap();
    assert!(g.is_error());
    let mut out = Vec::new();
    build_frame_header(&mut out, FrameType::GoAway, 0, &g, None);
    assert_eq!(&out[9..], payload.as_slice());
    let g = GoAway::new(ErrorType::NoError, 0, vec![]);
    assert!(!g.is_error());
    assert!(matches!(GoAway::from_bytes(&payload[..5], 12), Err(FrameError::BadFrameSize(5))));
    // Unknown codes read as INTERNAL_ERROR.
    let g = GoAway::from_bytes(&[0, 0, 0, 0, 0, 0, 0, 99], 8).unwrap();
    let mut out = Vec::new();
    build_frame_header(&mut out, FrameType::GoAway, 0, &g, None);
    assert_eq!(&out[9..], &[0, 0, 0, 0, 0, 0, 0, 2]);
}

#[test]
fn error_codes() {
    assert_eq!(u32::from(ErrorType::FlowControlError), 3);
    assert_eq!(u32::from(ErrorType::from(13u32)), 13);
    assert_eq!(u32::from(ErrorType::from(77u32)), 2);
    assert_eq!(ErrorType::Http11Required.name(), "Http11Required");
}

#[test]
fn ping_reset_and_window_update() {
    let p = Ping::from_bytes(&[0, 0, 0, 0, 0, 0, 0x02, 0x9a], 1).unwrap();
    assert_eq!(p.opaque_data, 666);
    assert!(p.is_ack);
    assert!(matches!(Ping::from_bytes(&[0; 7], 0), Err(FrameError::BadFrameSize(7))));
    let r = ResetStream::from_bytes(&[0, 0, 0, 8], 4).unwrap();
    assert_eq!(r.error_code, 8);
    assert_eq!(ResetStream::new(3).error_code, 3);
    let w = WindowUpdate::from_bytes(&[0x3f, 0xff, 0, 1], 4).unwrap();
    assert_eq!(w.0, 1073676289);
    assert!(matches!(WindowUpdate::from_bytes(&[0, 0], 4), Err(FrameError::BadFrameSize(2))));
}

#[test]
fn headers_payload_is_the_hpack_encoding_within_its_bounds() {
    let list = vec![
        (b":status".to_vec(), b"200".to_vec()),
        (b"x-custom".to_vec(), b"value".to_vec()),
    ];
    let h = Headers::new(&list, true);
    let mut enc = fluke_hpack::Encoder::new();
    let payload = h.serialize_response(Some(&mut enc));
    // `:status: 200` is in the static table (one byte); the custom header is
    // written as a literal name and value.
    assert_eq!(payload[0], 0x88);
    assert_eq!(payload.len(), 1 + 1 + 1 + 8 + 1 + 5);
    let bound: usize = list.iter().map(|(n, v)| 23 + n.len() + v.len()).sum();
    assert!(list.len() <= payload.len() && payload.len() <= bound);
    let mut fresh = fluke_hpack::Encoder::new();
    assert_eq!(h.compute_frame_length(Some(&mut fresh)), payload.len() as u32);
    assert_eq!(h.get_flags(), 0x05);
}

#[test]
fn date_header_has_the_http_date_shape() {
    let d = raptor::response::http_date_now();
    assert_eq!(d.len(), 29);
    assert_eq!(&d[3..5], b", ");
    assert!(d.ends_with(b" GMT"));
}

#[test]
fn headers_block_starts_past_the_priority_bytes() {
    // PRIORITY (0x20), END_HEADERS, END_STREAM: 5 priority bytes, then
    // `:method GET` and `:path /` as static-table indices.
    let payload = [0x80, 0, 0, 3, 16, 0x82, 0x84];
    let mut decoder = fluke_hpack::Decoder::new();
    let h = Headers::from_bytes(&payload, &mut decoder, 0x25, 7).unwrap();
    assert!(h.should_stream_close());
    let mut decoder = fluke_hpack::Decoder::new();
    assert!(matches!(
        Headers::from_bytes(&[0x3f], &mut decoder, 0x05, 1),
        Err(FrameError::HpackSizeUpdateCutShort)
    ));
    assert!(matches!(Headers::from_bytes(&[0x82], &mut decoder, 0x05, 2), Err(FrameError::BadFrameSize(1))));
}

#[test]
fn settings_read_then_written_give_the_announced_bytes() {
    // Two known entries, then a byte past the announced length.
    let payload = [0, 1, 0, 0, 0x10, 0, 0, 5, 0, 0, 0x40, 0, 0xaa];
    let s = Settings::from_bytes(&payload, 12).unwrap();
    let mut out = Vec::new();
    build_frame_header(&mut out, FrameType::Settings, 0, &s, None);
    assert_eq!(out[4], 0);
    assert_eq!(&out[9..], &payload[..12]);
}
