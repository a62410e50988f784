//! Responses of the HTTP/2 server: status code, headers and body.
use vstd::prelude::*;

use crate::mime::{format_now_utc, mime_first, mime_first_raw, utc_format};
use crate::wire::{ascii, ascii_vec, decimal, decimal_bytes, pairs_view, push_all};

verus! {

/// How reading the requested file failed, as far as responses tell it apart.
#[derive(Debug, Clone, Copy, PartialEq, Eq, Structural)]
pub enum IoFailure {
    NotFound,
    PermissionDenied,
    Other,
}

/// A response: status code, header list, and body if any.
#[derive(Debug)]
pub struct Response {
    pub code: u16,
    pub headers: Vec<(Vec<u8>, Vec<u8>)>,
    pub body: Option<Vec<u8>>,
}

/// A response, by value.
pub struct ResponseView {
    pub code: u16,
    pub headers: Seq<(Seq<u8>, Seq<u8>)>,
    pub body: Option<Seq<u8>>,
}

/// The header list of a response: `:status` first, then its headers.
pub open spec fn response_header_list(r: ResponseView) -> Seq<(Seq<u8>, Seq<u8>)> {
    seq![(ascii(":status"@), decimal(r.code as nat))] + r.headers
}

impl View for Response {
    type V = ResponseView;

    open spec fn view(&self) -> ResponseView {
        ResponseView {
            code: self.code,
            headers: pairs_view(self.headers@),
            body: match self.body {
                Some(b) => Some(b@),
                None => None,
            },
        }
    }
}

/// The format of the `date` header.
pub open spec fn date_format() -> Seq<char> {
    "%a, %d %b %Y %H:%M:%S GMT"@
}

/// The UTF-8 bytes of a text.
pub open spec fn utf8(s: Seq<char>) -> Seq<u8> {
    vstd::utf8::encode_utf8(s)
}

/// The content type of a file extension: the first one registered, or
/// `text/plain` when none is.
pub open spec fn content_type_of(ext: Seq<char>) -> Seq<u8> {
    match mime_first_raw(ext) {
        Some(m) => utf8(m),
        None => ascii("text/plain"@),
    }
}

/// The content type of a file extension: the first one registered, or
/// `text/plain` when none is.
pub fn content_type_for(extension: &str) -> (r: Vec<u8>)
    ensures
        r@ == content_type_of(extension@),
{
    match mime_first(extension) {
        Some(m) => {
            let mut v: Vec<u8> = Vec::new();
            push_all(&mut v, m.as_str().as_bytes());
            v
        },
        None => {
            proof {
                reveal_strlit("text/plain");
            }
            ascii_vec("text/plain")
        },
    }
}

/// The current date, as the `date` header carries it: the UTF-8 bytes of the
/// moment written in `date_format`.
pub fn http_date_now() -> (r: Vec<u8>)
    ensures
        exists|secs: i64, nanos: u32| r@ == utf8(utc_format(date_format(), secs, nanos)),
{
    proof {
        reveal_strlit("%a, %d %b %Y %H:%M:%S GMT");
    }
    let (secs, nanos, s) = format_now_utc("%a, %d %b %Y %H:%M:%S GMT");
    let mut v: Vec<u8> = Vec::new();
    push_all(&mut v, s.as_str().as_bytes());
    assert(v@ == utf8(utc_format(date_format(), secs, nanos)));
    v
}

/// The response to the outcome of reading a file, given its content type and
/// the date: 200 with content-length, content-type, date and server headers
/// and the bytes as body; 200 without body (and without content-length) for
/// no bytes; 404, 403 or 500 with date and server headers only, for a file
/// not found, not permitted, or any other failure.
pub open spec fn response_of(value: Result<Option<Seq<u8>>, IoFailure>, content_type: Seq<u8>, date: Seq<u8>) -> ResponseView {
    let date_h = (ascii("date"@), date);
    let server_h = (ascii("server"@), ascii("raptor"@));
    let type_h = (ascii("content-type"@), content_type);
    match value {
        Ok(Some(body)) => ResponseView {
            code: 200,
            headers: seq![(ascii("content-length"@), decimal(body.len())), type_h, date_h, server_h],
            body: Some(body),
        },
        Ok(None) => ResponseView { code: 200, headers: seq![type_h, date_h, server_h], body: None },
        Err(IoFailure::NotFound) => ResponseView { code: 404, headers: seq![date_h, server_h], body: None },
        Err(IoFailure::PermissionDenied) => ResponseView { code: 403, headers: seq![date_h, server_h], body: None },
        Err(IoFailure::Other) => ResponseView { code: 500, headers: seq![date_h, server_h], body: None },
    }
}

/// The outcome of a file read, by value.
pub open spec fn io_result_view(value: Result<Option<Vec<u8>>, IoFailure>) -> Result<Option<Seq<u8>>, IoFailure> {
    match value {
        Ok(Some(b)) => Ok(Some(b@)),
        Ok(None) => Ok(None),
        Err(e) => Err(e),
    }
}

/// The reason phrase of a status code.
pub open spec fn code_string(code: u16) -> Seq<char> {
    match code {
        200 => "OK"@,
        400 => "Bad Request"@,
        401 => "Unauthorized"@,
        403 => "Forbidden"@,
        404 => "Not Found"@,
        _ => "Internal Server Error"@,
    }
}

/// Reason phrases: the status codes the server answers with get their RFC
/// 9110 reason phrase (200 OK, 400 Bad Request, 401 Unauthorized, 403
/// Forbidden, 404 Not Found); every other code is reported as an internal
/// server error.
pub proof fn lemma_reason_phrases(code: u16)
    ensures
        code == 200 ==> code_string(code) == seq!['O', 'K'],
        code == 400 ==> code_string(code) == seq!['B', 'a', 'd', ' ', 'R', 'e', 'q', 'u', 'e', 's', 't'],
        code == 401 ==> code_string(code) == seq!['U', 'n', 'a', 'u', 't', 'h', 'o', 'r', 'i', 'z', 'e', 'd'],
        code == 403 ==> code_string(code) == seq!['F', 'o', 'r', 'b', 'i', 'd', 'd', 'e', 'n'],
        code == 404 ==> code_string(code) == seq!['N', 'o', 't', ' ', 'F', 'o', 'u', 'n', 'd'],
        code != 200 && code != 400 && code != 401 && code != 403 && code != 404 ==> code_string(code) == seq![
            'I', 'n', 't', 'e', 'r', 'n', 'a', 'l', ' ', 'S', 'e', 'r', 'v', 'e', 'r', ' ', 'E', 'r', 'r', 'o', 'r',
        ],
{
    reveal_strlit("OK");
    reveal_strlit("Bad Request");
    reveal_strlit("Unauthorized");
    reveal_strlit("Forbidden");
    reveal_strlit("Not Found");
    reveal_strlit("Internal Server Error");
    assert("OK"@ =~= seq!['O', 'K']);
    assert("Bad Request"@ =~= seq!['B', 'a', 'd', ' ', 'R', 'e', 'q', 'u', 'e', 's', 't']);
    assert("Unauthorized"@ =~= seq!['U', 'n', 'a', 'u', 't', 'h', 'o', 'r', 'i', 'z', 'e', 'd']);
    assert("Forbidden"@ =~= seq!['F', 'o', 'r', 'b', 'i', 'd', 'd', 'e', 'n']);
    assert("Not Found"@ =~= seq!['N', 'o', 't', ' ', 'F', 'o', 'u', 'n', 'd']);
    assert("Internal Server Error"@ =~= seq![
        'I', 'n', 't', 'e', 'r', 'n', 'a', 'l', ' ', 'S', 'e', 'r', 'v', 'e', 'r', ' ', 'E', 'r', 'r', 'o', 'r',
    ]);
}

fn named(name: &str, value: Vec<u8>) -> (r: (Vec<u8>, Vec<u8>))
    requires
        vstd::string::is_ascii(name),
    ensures
        r.0@ == ascii(name@),
        r.1@ == value@,
{
    (ascii_vec(name), value)
}

impl Response {
    /// The response to the outcome of reading a file, with the given content
    /// type and date (see `response_of`).
    pub fn with_parts(value: Result<Option<Vec<u8>>, IoFailure>, content_type: Vec<u8>, date: Vec<u8>) -> (r: Self)
        ensures
            r@ == response_of(io_result_view(value), content_type@, date@),
    {
        proof {
            reveal_strlit("date");
            reveal_strlit("server");
            reveal_strlit("raptor");
            reveal_strlit("content-type");
            reveal_strlit("content-length");
        }
        let date_h = named("date", date);
        let server_h = named("server", ascii_vec("raptor"));
        let ghost cv = io_result_view(value);
        let r = match value {
            Ok(Some(body)) => {
                let len = decimal_bytes(body.len() as u64);
                let type_h = named("content-type", content_type);
                let length_h = named("content-length", len);
                Self { code: 200, headers: vec![length_h, type_h, date_h, server_h], body: Some(body) }
            },
            Ok(None) => {
                let type_h = named("content-type", content_type);
                Self { code: 200, headers: vec![type_h, date_h, server_h], body: None }
            },
            Err(IoFailure::NotFound) => Self { code: 404, headers: vec![date_h, server_h], body: None },
            Err(IoFailure::PermissionDenied) => Self { code: 403, headers: vec![date_h, server_h], body: None },
            Err(IoFailure::Other) => Self { code: 500, headers: vec![date_h, server_h], body: None },
        };
        assert(r@.headers =~= response_of(cv, content_type@, date@).headers);
        r
    }

    /// The response to the outcome of reading a file with the given
    /// extension, dated now (see `response_of`).
    pub fn from_io_result(value: Result<Option<Vec<u8>>, IoFailure>, extension: &str) -> (r: Self)
        ensures
            exists|secs: i64, nanos: u32|
                r@ == response_of(
                    io_result_view(value),
                    content_type_of(extension@),
                    utf8(utc_format(date_format(), secs, nanos)),
                ),
    {
        let content_type = content_type_for(extension);
        let date = http_date_now();
        Self::with_parts(value, content_type, date)
    }

    /// The reason phrase of the status code; `Internal Server Error` for codes
    /// it does not know.
    pub fn get_code_string(&self) -> (r: &'static str)
        ensures
            r@ == code_string(self.code),
            vstd::string::is_ascii(r),
    {
        match self.code {
            200 => {
                proof { reveal_strlit("OK"); }
                "OK"
            },
            400 => {
                proof { reveal_strlit("Bad Request"); }
                "Bad Request"
            },
            401 => {
                proof { reveal_strlit("Unauthorized"); }
                "Unauthorized"
            },
            403 => {
                proof { reveal_strlit("Forbidden"); }
                "Forbidden"
            },
            404 => {
                proof { reveal_strlit("Not Found"); }
                "Not Found"
            },
            _ => {
                proof { reveal_strlit("Internal Server Error"); }
                "Internal Server Error"
            },
        }
    }
}

/// The answer to a request that could not be read: 400, with the date, a
/// content length of 0 and the server's name, and no body.
pub open spec fn bad_request_of(date: Seq<u8>) -> ResponseView {
    ResponseView {
        code: 400,
        headers: seq![
            (ascii("date"@), date),
            (ascii("content-length"@), ascii("0"@)),
            (ascii("server"@), ascii("raptor"@)),
        ],
        body: None,
    }
}

impl Response {
    /// The answer to a request that could not be read, dated now (see `bad_request_of`).
    pub fn bad_request() -> (r: Self)
        ensures
            exists|secs: i64, nanos: u32| r@ == bad_request_of(utf8(utc_format(date_format(), secs, nanos))),
    {
        proof {
            reveal_strlit("date");
            reveal_strlit("server");
            reveal_strlit("raptor");
            reveal_strlit("content-length");
            reveal_strlit("0");
        }
        let date = http_date_now();
        let ghost d = date@;
        let r = Self {
            code: 400,
            headers: vec![named("date", date), named("content-length", ascii_vec("0")), named("server", ascii_vec("raptor"))],
            body: None,
        };
        assert(r@.headers =~= bad_request_of(d).headers);
        r
    }

    /// The reason phrase of the status code, as bytes; `Internal Server
    /// Error` for codes it does not know.
    pub fn get_code_bytes(&self) -> (r: Vec<u8>)
        ensures
            r@ == ascii(code_string(self.code)),
    {
        ascii_vec(self.get_code_string())
    }
}

} // verus!
