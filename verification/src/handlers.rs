//! Which virtual host answers an HTTP/1.1 request, and whether the client
//! asked to keep the connection open.
use vstd::prelude::*;

use vstd::string::StrSliceExecFns;

use crate::vhosts::{glob_match, glob_matches_of, Vhost};

verus! {

/// ASCII lower case of one character.
pub open spec fn char_lower(c: char) -> char {
    if 'A' <= c <= 'Z' {
        ((c as u8) + 32) as char
    } else {
        c
    }
}

/// Whether a header name is `word` (lower-case), without regard to ASCII
/// case. (Header names as the parser gives them are ASCII tokens, whose
/// Unicode lower case is their ASCII lower case.)
pub open spec fn name_is(name: Seq<char>, word: Seq<char>) -> bool {
    name.len() == word.len() && forall|i: int| 0 <= i < name.len() ==> char_lower(#[trigger] name[i]) == word[i]
}

/// Whether `name`, lower-cased, is `word`.
fn name_equals(name: &str, word: &str) -> (r: bool)
    ensures
        r == name_is(name@, word@),
{
    let n = name.unicode_len();
    if n != word.unicode_len() {
        return false;
    }
    let mut i: usize = 0;
    while i < n
        invariant
            i <= n == name@.len() == word@.len(),
            forall|j: int| 0 <= j < i ==> char_lower(#[trigger] name@[j]) == word@[j],
        decreases n - i,
    {
        let c = name.get_char(i);
        let lower = if 'A' <= c && c <= 'Z' {
            ((c as u8) + 32) as char
        } else {
            c
        };
        if lower != word.get_char(i) {
            return false;
        }
        i = i + 1;
    }
    true
}

/// The index of the first header named `host`, if any.
pub open spec fn host_header(headers: Seq<(Seq<char>, Seq<u8>)>, from: int) -> Option<int>
    decreases headers.len() - from,
{
    if from >= headers.len() || from < 0 {
        None
    } else if name_is(headers[from].0, "host"@) {
        Some(from)
    } else {
        host_header(headers, from + 1)
    }
}

/// Going through the hosts from `from`: `Some(Some(i))` for the first whose
/// name pattern matches `text`, `Some(None)` when none does, and `None` when a
/// pattern that is not a valid glob comes first.
pub open spec fn glob_scan(vs: Seq<Vhost>, text: Seq<char>, from: int) -> Option<Option<int>>
    decreases vs.len() - from,
{
    if from >= vs.len() || from < 0 {
        Some(None)
    } else {
        match glob_match(vs[from].name@, text) {
            None => None,
            Some(true) => Some(Some(from)),
            Some(false) => glob_scan(vs, text, from + 1),
        }
    }
}

/// The index of the first host marked as the default one, from `from`, if any.
pub open spec fn default_vhost(vs: Seq<Vhost>, from: int) -> Option<int>
    decreases vs.len() - from,
{
    if from >= vs.len() || from < 0 {
        None
    } else if vs[from].is_default == Some(true) {
        Some(from)
    } else {
        default_vhost(vs, from + 1)
    }
}

/// Which host answers a request with these headers: none (an error) without
/// a `host` header; else the first host whose name pattern matches, the host
/// matched against being the header's name, as the server does; else the
/// first default host; else the first host. `None` when a name pattern that
/// is not a valid glob is met before a match.
pub open spec fn vhost_choice(vs: Seq<Vhost>, headers: Seq<(Seq<char>, Seq<u8>)>) -> Option<Result<int, ()>> {
    match host_header(headers, 0) {
        None => Some(Err(())),
        Some(h) => match glob_scan(vs, headers[h].0, 0) {
            None => None,
            Some(Some(i)) => Some(Ok(i)),
            Some(None) => match default_vhost(vs, 0) {
                Some(i) => Some(Ok(i)),
                None => Some(Ok(0)),
            },
        },
    }
}

/// The index of the first header named `host` (see `host_header`).
fn find_host(headers: &[(String, Vec<u8>)]) -> (r: Option<usize>)
    ensures
        match host_header(crate::http11::named_values_view(headers@), 0) {
            Some(h) => r == Some(h as usize) && 0 <= h < headers@.len(),
            None => r is None,
        },
{
    let ghost hv = crate::http11::named_values_view(headers@);
    let mut h: usize = 0;
    while h < headers.len()
        invariant
            h <= headers@.len(),
            hv == crate::http11::named_values_view(headers@),
            host_header(hv, 0) == host_header(hv, h as int),
        decreases headers@.len() - h,
    {
        assert(hv[h as int].0 == headers@[h as int].0@);
        if name_equals(headers[h].0.as_str(), "host") {
            return Some(h);
        }
        h = h + 1;
    }
    None
}

/// The first host whose name pattern matches `text` (see `glob_scan`).
fn scan_globs(vhosts_list: &[Vhost], text: &str) -> (r: Option<Option<usize>>)
    ensures
        match glob_scan(vhosts_list@, text@, 0) {
            None => r is None,
            Some(None) => r == Some(None::<usize>),
            Some(Some(i)) => r == Some(Some(i as usize)) && 0 <= i < vhosts_list@.len(),
        },
{
    let mut i: usize = 0;
    while i < vhosts_list.len()
        invariant
            i <= vhosts_list@.len(),
            glob_scan(vhosts_list@, text@, 0) == glob_scan(vhosts_list@, text@, i as int),
        decreases vhosts_list@.len() - i,
    {
        match glob_matches_of(vhosts_list[i].name.as_str(), text) {
            None => {
                return None;
            },
            Some(true) => {
                return Some(Some(i));
            },
            Some(false) => {},
        }
        i = i + 1;
    }
    Some(None)
}

/// The first host marked as the default one (see `default_vhost`).
fn find_default(vhosts_list: &[Vhost]) -> (r: Option<usize>)
    ensures
        match default_vhost(vhosts_list@, 0) {
            Some(i) => r == Some(i as usize) && 0 <= i < vhosts_list@.len(),
            None => r is None,
        },
{
    let mut d: usize = 0;
    while d < vhosts_list.len()
        invariant
            d <= vhosts_list@.len(),
            default_vhost(vhosts_list@, 0) == default_vhost(vhosts_list@, d as int),
        decreases vhosts_list@.len() - d,
    {
        if vhosts_list[d].is_default == Some(true) {
            return Some(d);
        }
        d = d + 1;
    }
    None
}

/// Chooses the host that answers a request with these headers (see
/// `vhost_choice`): `Err("Invalid request.")` without a `host` header, and
/// `None` when a name pattern that is not a valid glob is met before a match.
/// (With no host at all, a request with a `host` header is left out by
/// `requires`: there is no first host to fall back to.)
pub fn select_vhost<'v>(vhosts_list: &'v [Vhost], headers: &[(String, Vec<u8>)]) -> (r: Option<Result<&'v Vhost, String>>)
    requires
        vhosts_list@.len() > 0 || host_header(crate::http11::named_values_view(headers@), 0) is None,
    ensures
        match vhost_choice(vhosts_list@, crate::http11::named_values_view(headers@)) {
            None => r is None,
            Some(Err(())) => r matches Some(Err(_)),
            Some(Ok(i)) => r matches Some(Ok(v)) && 0 <= i < vhosts_list@.len() && *v == vhosts_list@[i],
        },
{
    let h = match find_host(headers) {
        Some(h) => h,
        None => {
            return Some(Err(String::from_str("Invalid request.")));
        },
    };
    assert(crate::http11::named_values_view(headers@)[h as int].0 == headers@[h as int].0@);
    match scan_globs(vhosts_list, headers[h].0.as_str()) {
        None => None,
        Some(Some(i)) => Some(Ok(&vhosts_list[i])),
        Some(None) => match find_default(vhosts_list) {
            Some(d) => Some(Ok(&vhosts_list[d])),
            None => Some(Ok(&vhosts_list[0])),
        },
    }
}

/// Whether the client asked to keep the connection open: a header named
/// `connection`, without regard to ASCII case, whose value is `keep-alive`.
pub open spec fn keeps_connection(headers: Seq<(Seq<char>, Seq<u8>)>) -> bool {
    exists|i: int|
        0 <= i < headers.len() && name_is((#[trigger] headers[i]).0, "connection"@) && headers[i].1
            == crate::wire::ascii("keep-alive"@)
}

/// Whether the client asked to keep the connection open (see `keeps_connection`).
pub fn should_keep_connection(headers: &[(String, Vec<u8>)]) -> (r: bool)
    ensures
        r == keeps_connection(crate::http11::named_values_view(headers@)),
{
    let ghost hv = crate::http11::named_values_view(headers@);
    proof {
        reveal_strlit("keep-alive");
    }
    let keep_alive = crate::wire::ascii_vec("keep-alive");
    let mut i: usize = 0;
    while i < headers.len()
        invariant
            i <= headers@.len(),
            hv == crate::http11::named_values_view(headers@),
            keep_alive@ == crate::wire::ascii("keep-alive"@),
            forall|j: int|
                0 <= j < i ==> !(name_is((#[trigger] hv[j]).0, "connection"@) && hv[j].1 == crate::wire::ascii(
                    "keep-alive"@,
                )),
        decreases headers@.len() - i,
    {
        if name_equals(headers[i].0.as_str(), "connection") && crate::wire::bytes_eq(
            headers[i].1.as_slice(),
            keep_alive.as_slice(),
        ) {
            assert(hv[i as int].0 == headers@[i as int].0@);
            return true;
        }
        i = i + 1;
    }
    false
}

/// What the file system says of the path a GET names.
#[derive(Debug, Clone, Copy, PartialEq, Eq, Structural)]
pub enum FileKind {
    /// A file, of this size.
    File(u64),
    /// A directory.
    Dir,
    /// Something else.
    Other,
}

/// The body of a GET response: the file's bytes, read as they are sent, or these bytes.
#[derive(Debug)]
pub enum GetBody {
    File,
    Bytes(Vec<u8>),
}

/// A response to a GET: its status line (code and reason, as `200 OK`), its
/// content length when it has one, and its body.
#[derive(Debug)]
pub struct GetResponse {
    pub status: &'static str,
    pub content_length: Option<u64>,
    pub body: GetBody,
}

/// The status line, content length and body text of the response to a GET
/// (`None` as body for the file's own bytes): a file is sent with 200 and
/// its size; a directory gets 501; anything else, or a failure other than
/// not found (404) and not permitted (403), gets 500.
pub open spec fn get_response_of(metadata: Result<FileKind, crate::response::IoFailure>) -> (Seq<char>, Option<u64>, Option<Seq<char>>) {
    match metadata {
        Ok(FileKind::File(size)) => ("200 OK"@, Some(size), None),
        Ok(FileKind::Dir) => ("501 Not Implemented"@, None, Some("Not implemented yet."@)),
        Ok(FileKind::Other) => ("500 Internal Server Error"@, None, Some("Oops, something went wrong :("@)),
        Err(crate::response::IoFailure::NotFound) => ("404 Not Found"@, None, Some("Resource not found!"@)),
        Err(crate::response::IoFailure::PermissionDenied) => (
            "403 Forbidden"@,
            None,
            Some("Not allowed to access this ressource!"@),
        ),
        Err(crate::response::IoFailure::Other) => ("500 Internal Server Error"@, None, Some("Oops, something went wrong :("@)),
    }
}

/// A response, by value: its status line, content length and body text.
pub open spec fn get_response_view(r: GetResponse) -> (Seq<char>, Option<u64>, Option<Seq<char>>) {
    (
        r.status@,
        r.content_length,
        match r.body {
            GetBody::File => None,
            GetBody::Bytes(b) => Some(b@.map_values(|c: u8| c as char)),
        },
    )
}

/// The ASCII bytes of a text, as a body.
fn text_body(s: &str) -> (r: GetBody)
    requires
        vstd::string::is_ascii(s),
    ensures
        r matches GetBody::Bytes(b) && b@.map_values(|c: u8| c as char) == s@,
{
    let b = crate::wire::ascii_vec(s);
    assert(b@.map_values(|c: u8| c as char) =~= s@);
    GetBody::Bytes(b)
}

/// The response to a GET of a path the file system described as `metadata`
/// (see `get_response_of`).
pub fn handle_get(metadata: Result<FileKind, crate::response::IoFailure>) -> (r: GetResponse)
    ensures
        get_response_view(r) == get_response_of(metadata),
{
    proof {
        reveal_strlit("Not implemented yet.");
        reveal_strlit("Oops, something went wrong :(");
        reveal_strlit("Resource not found!");
        reveal_strlit("Not allowed to access this ressource!");
    }
    match metadata {
        Ok(FileKind::File(size)) => GetResponse { status: "200 OK", content_length: Some(size), body: GetBody::File },
        Ok(FileKind::Dir) => GetResponse {
            status: "501 Not Implemented",
            content_length: None,
            body: text_body("Not implemented yet."),
        },
        Ok(FileKind::Other) => GetResponse {
            status: "500 Internal Server Error",
            content_length: None,
            body: text_body("Oops, something went wrong :("),
        },
        Err(crate::response::IoFailure::NotFound) => GetResponse {
            status: "404 Not Found",
            content_length: None,
            body: text_body("Resource not found!"),
        },
        Err(crate::response::IoFailure::PermissionDenied) => GetResponse {
            status: "403 Forbidden",
            content_length: None,
            body: text_body("Not allowed to access this ressource!"),
        },
        Err(crate::response::IoFailure::Other) => GetResponse {
            status: "500 Internal Server Error",
            content_length: None,
            body: text_body("Oops, something went wrong :("),
        },
    }
}

/// The head of a GET response (see `serialize_header`): its status line, and
/// a `content-length` header when it has a length.
pub fn get_response_head(r: &GetResponse) -> (r2: Vec<u8>)
    ensures
        exists|d: crate::stream_utils::DateParts|
            r2@ == crate::stream_utils::response_head(
                r.status@,
                crate::stream_utils::date_line(d),
                match r.content_length {
                    Some(n) => seq![(crate::wire::ascii("content-length"@), crate::wire::decimal(n as nat))],
                    None => seq![],
                },
            ),
{
    proof {
        reveal_strlit("content-length");
    }
    let mut headers: Vec<(Vec<u8>, Vec<u8>)> = Vec::new();
    match r.content_length {
        Some(n) => {
            headers.push((crate::wire::ascii_vec("content-length"), crate::wire::decimal_bytes(n)));
        },
        None => {},
    }
    let ghost hv = crate::wire::pairs_view(headers@);
    assert(hv =~= match r.content_length {
        Some(n) => seq![(crate::wire::ascii("content-length"@), crate::wire::decimal(n as nat))],
        None => seq![],
    });
    crate::stream_utils::serialize_header(r.status, headers.as_slice())
}

/// What `handle_get` reports once the response is sent: the body text (read
/// as UTF-8) as an error for any status but 200, which sends the file.
pub fn get_outcome(r: &GetResponse) -> (out: Result<(), String>)
    ensures
        match r.body {
            GetBody::File => out is Ok,
            GetBody::Bytes(b) => out matches Err(s) && s@ == crate::method_handlers::utf8_lossy(b@),
        },
{
    match &r.body {
        GetBody::File => Ok(()),
        GetBody::Bytes(b) => Err(crate::method_handlers::text_of(b.as_slice())),
    }
}

/// The head of the answer to a HEAD: 200 with a content length of 0.
pub fn handle_head() -> (r: Vec<u8>)
    ensures
        exists|d: crate::stream_utils::DateParts|
            r@ == crate::stream_utils::response_head(
                "200 OK"@,
                crate::stream_utils::date_line(d),
                seq![(crate::wire::ascii("content-length"@), crate::wire::ascii("0"@))],
            ),
{
    proof {
        reveal_strlit("content-length");
        reveal_strlit("0");
    }
    let headers = vec![(crate::wire::ascii_vec("content-length"), crate::wire::ascii_vec("0"))];
    assert(crate::wire::pairs_view(headers@) =~= seq![(crate::wire::ascii("content-length"@), crate::wire::ascii("0"@))]);
    crate::stream_utils::serialize_header("200 OK", headers.as_slice())
}

/// The answer to a request no host can take: 400, a content length of 12,
/// and the body `Bad request.`.
pub fn send_invalid_request() -> (r: Vec<u8>)
    ensures
        exists|d: crate::stream_utils::DateParts|
            r@ == crate::stream_utils::response_head(
                "400 Bad Request"@,
                crate::stream_utils::date_line(d),
                seq![(crate::wire::ascii("content-length"@), crate::wire::ascii("12"@))],
            ) + crate::wire::ascii("Bad request."@),
{
    proof {
        reveal_strlit("content-length");
        reveal_strlit("12");
        reveal_strlit("Bad request.");
    }
    let headers = vec![(crate::wire::ascii_vec("content-length"), crate::wire::ascii_vec("12"))];
    assert(crate::wire::pairs_view(headers@) =~= seq![(crate::wire::ascii("content-length"@), crate::wire::ascii("12"@))]);
    let mut out = crate::stream_utils::serialize_header("400 Bad Request", headers.as_slice());
    let body = crate::wire::ascii_vec("Bad request.");
    crate::wire::push_all(&mut out, body.as_slice());
    out
}

} // verus!
