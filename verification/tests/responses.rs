use raptor::response::{content_type_for, IoFailure, Response};
use raptor::stream_utils::{date_line_of, generate_http_date_header, serialize_header, DateParts};

#[test]
fn file_read_becomes_200_with_length_and_type() {
    let r = Response::with_parts(Ok(Some(b"<p>hi</p>".to_vec())), b"text/html".to_vec(), b"DATE".to_vec());
    assert_eq!(r.code, 200);
    assert_eq!(
        r.headers,
        vec![
            (b"content-length".to_vec(), b"9".to_vec()),
            (b"content-type".to_vec(), b"text/html".to_vec()),
            (b"date".to_vec(), b"DATE".to_vec()),
            (b"server".to_vec(), b"raptor".to_vec()),
        ]
    );
    assert_eq!(r.body, Some(b"<p>hi</p>".to_vec()));
}

#[test]
fn read_failures_become_error_codes() {
    for (failure, code) in [(IoFailure::NotFound, 404), (IoFailure::PermissionDenied, 403), (IoFailure::Other, 500)] {
        let r = Response::with_parts(Err(failure), b"text/plain".to_vec(), b"D".to_vec());
        assert_eq!(r.code, code);
        assert_eq!(r.headers, vec![(b"date".to_vec(), b"D".to_vec()), (b"server".to_vec(), b"raptor".to_vec())]);
        assert_eq!(r.body, None);
    }
    let r = Response::with_parts(Ok(None), b"t".to_vec(), b"D".to_vec());
    assert_eq!(r.code, 200);
    assert_eq!(r.headers.len(), 3);
}

#[test]
fn content_types_by_extension() {
    assert_eq!(content_type_for("html"), b"text/html".to_vec());
    assert_eq!(content_type_for("no-such-extension"), b"text/plain".to_vec());
    assert_eq!(content_type_for(""), b"text/plain".to_vec());
    let r = Response::from_io_result(Ok(Some(vec![1, 2])), "png");
    assert_eq!(r.headers[1], (b"content-type".to_vec(), b"image/png".to_vec()));
    assert_eq!(r.headers[0], (b"content-length".to_vec(), b"2".to_vec()));
}

#[test]
fn bad_request_and_reasons() {
    let r = Response::bad_request();
    assert_eq!(r.code, 400);
    assert_eq!(r.headers[0].0, b"date".to_vec());
    assert_eq!(r.headers[1], (b"content-length".to_vec(), b"0".to_vec()));
    assert_eq!(r.headers[2], (b"server".to_vec(), b"raptor".to_vec()));
    assert_eq!(r.get_code_string(), "Bad Request");
    assert_eq!(r.get_code_bytes(), b"Bad Request".to_vec());
    let r = Response { code: 401, headers: vec![], body: None };
    assert_eq!(r.get_code_string(), "Unauthorized");
    let r = Response { code: 302, headers: vec![], body: None };
    assert_eq!(r.get_code_string(), "Internal Server Error");
}

#[test]
fn date_line_and_response_head() {
    let d = DateParts { weekday: "Sun".to_string(), day: 12, month: 8, year: 2018, hour: 17, minute: 3, second: 41 };
    assert_eq!(date_line_of(&d), b"Date: Sun, 12 8 2018 17:3:41\r\n".to_vec());
    let line = generate_http_date_header();
    assert!(line.starts_with(b"Date: ") && line.ends_with(b"\r\n"));
    let head = serialize_header("200 OK", &[(b"content-length".to_vec(), b"0".to_vec())]);
    assert!(head.starts_with(b"HTTP/1.1 200 OK\r\nServer: feather\r\nDate: "));
    assert!(head.ends_with(b"\r\ncontent-length: 0\r\n\r\n"));
}
