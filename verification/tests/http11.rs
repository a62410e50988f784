use raptor::connection::http11::{do_http11_step, response_bytes, Http11Next};
use raptor::http11::{read_request_head, ParsedHead, Request};
use raptor::request::{HttpRequest, RequestError, RequestType};
use raptor::response::Response;

#[test]
fn complete_request_is_handled() {
    let parsed = read_request_head(b"GET /index.html HTTP/1.1\r\nHost: example.org\r\n\r\n");
    match &parsed {
        ParsedHead::Complete(Some(m), Some(p), headers) => {
            assert_eq!(m.as_slice(), b"GET");
            assert_eq!(p.as_slice(), b"/index.html");
            assert_eq!(headers, &vec![("Host".to_string(), b"example.org".to_vec())]);
        }
        other => panic!("unexpected {:?}", other),
    }
    match do_http11_step(&parsed, 10) {
        Http11Next::Handle(req) => {
            assert_eq!(req.get_type(), Ok(RequestType::Get));
            assert_eq!(req.get_uri(), Ok(&b"/index.html"[..]));
        }
        other => panic!("unexpected {:?}", other),
    }
}

#[test]
fn partial_request_reads_more_until_end_of_input() {
    let parsed = read_request_head(b"GET /index.html HTTP/1.1\r\nHost: exa");
    assert!(matches!(parsed, ParsedHead::Partial));
    assert!(matches!(do_http11_step(&parsed, 5), Http11Next::ReadMore));
    assert!(matches!(do_http11_step(&parsed, 0), Http11Next::BadRequest));
}

#[test]
fn invalid_request_is_a_bad_request() {
    let parsed = read_request_head(b"GET /index.html HTTP/1.1\r\nHo st: x\r\n\r\n");
    assert!(matches!(parsed, ParsedHead::Invalid));
    assert!(matches!(do_http11_step(&parsed, 3), Http11Next::BadRequest));
}

#[test]
fn unknown_method_is_refused() {
    let parsed = read_request_head(b"POST / HTTP/1.1\r\n\r\n");
    match do_http11_step(&parsed, 3) {
        Http11Next::Refused(RequestError::UnsupportedMethod(m)) => assert_eq!(m, b"POST"),
        other => panic!("unexpected {:?}", other),
    }
}

#[test]
fn request_from_parts() {
    let r = Request::try_from(Some(&b"HeAd"[..]), Some(&b"/x"[..])).unwrap();
    assert_eq!(r.get_type(), Ok(RequestType::Head));
    assert!(matches!(Request::try_from(None, Some(&b"/x"[..])), Err(RequestError::MalformedRequest)));
    assert!(matches!(Request::try_from(Some(&b"PUT"[..]), None), Err(RequestError::MalformedRequest)));
}

#[test]
fn response_is_written_as_http11() {
    let response = Response {
        code: 404,
        headers: vec![(b"server".to_vec(), b"raptor".to_vec()), (b"a".to_vec(), b"b".to_vec())],
        body: Some(b"gone".to_vec()),
    };
    assert_eq!(response_bytes(&response), b"HTTP/1.1 404 Not Found\r\nserver: raptor\r\na: b\r\n\r\ngone".to_vec());
    let response = Response { code: 999, headers: vec![], body: None };
    assert_eq!(response_bytes(&response), b"HTTP/1.1 999 Internal Server Error\r\n\r\n".to_vec());
}
