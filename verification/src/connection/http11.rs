//! HTTP/1.1 connections: one request, one response, then the connection closes.
use vstd::prelude::*;

use crate::http11::{ParsedHead, ParsedHeadView, Request};
use crate::request::{method_of, RequestError};
use crate::response::{code_string, Response, ResponseView};
use crate::wire::{ascii, ascii_vec, decimal, decimal_bytes, push_all};

verus! {

/// What to do with the request head read so far.
#[derive(Debug)]
pub enum Http11Next<'a> {
    /// A complete request: answer it, then close the connection.
    Handle(Request<'a>),
    /// Not all of it is there: read more bytes and look again.
    ReadMore,
    /// Answer `400 Bad Request` and close the connection.
    BadRequest,
    /// A complete head whose method is missing or unknown, or whose path is
    /// missing: it cannot be turned into a request.
    Refused(RequestError<'a>),
}

/// The decision on a parsed request head, after a read of `read_size` bytes:
/// a complete head becomes a request (or is refused, see
/// `Request::try_from`); a partial one asks for more bytes, unless the last
/// read brought none, which is answered `400 Bad Request`; so is a head that
/// is not a request head.
pub fn do_http11_step<'a>(parsed: &'a ParsedHead, read_size: usize) -> (r: Http11Next<'a>)
    ensures
        match parsed@ {
            ParsedHeadView::Complete(m, p, _) => match m {
                None => r matches Http11Next::Refused(RequestError::MalformedRequest),
                Some(mv) => match method_of(mv) {
                    None => r matches Http11Next::Refused(RequestError::UnsupportedMethod(x)) && x@ == mv,
                    Some(t) => match p {
                        None => r matches Http11Next::Refused(RequestError::MalformedRequest),
                        Some(pv) => r matches Http11Next::Handle(req) && req.spec_type() == t && req.spec_uri()
                            == pv,
                    },
                },
            },
            ParsedHeadView::Partial => if read_size == 0 {
                r is BadRequest
            } else {
                r is ReadMore
            },
            ParsedHeadView::Invalid => r is BadRequest,
        },
{
    match parsed {
        ParsedHead::Complete(m, p, _) => {
            let method: Option<&[u8]> = match m {
                Some(v) => Some(v.as_slice()),
                None => None,
            };
            let path: Option<&[u8]> = match p {
                Some(v) => Some(v.as_slice()),
                None => None,
            };
            match Request::try_from(method, path) {
                Ok(req) => Http11Next::Handle(req),
                Err(e) => Http11Next::Refused(e),
            }
        },
        ParsedHead::Partial => {
            if read_size == 0 {
                Http11Next::BadRequest
            } else {
                Http11Next::ReadMore
            }
        },
        ParsedHead::Invalid => Http11Next::BadRequest,
    }
}

/// A carriage return and a line feed.
pub open spec fn crlf() -> Seq<u8> {
    seq![13u8, 10u8]
}

/// Each header as a line `name: value`, in order.
pub open spec fn header_lines(h: Seq<(Seq<u8>, Seq<u8>)>) -> Seq<u8>
    decreases h.len(),
{
    if h.len() == 0 {
        seq![]
    } else {
        header_lines(h.drop_last()) + h.last().0 + seq![58u8, 32u8] + h.last().1 + crlf()
    }
}

/// The bytes of a response on an HTTP/1.1 connection: the status line
/// `HTTP/1.1 <code> <reason>`, the header lines, an empty line, the body.
pub open spec fn http11_response_bytes(r: ResponseView) -> Seq<u8> {
    ascii("HTTP/1.1 "@) + decimal(r.code as nat) + seq![32u8] + ascii(code_string(r.code)) + crlf()
        + header_lines(r.headers) + crlf() + match r.body {
        Some(b) => b,
        None => seq![],
    }
}

/// The bytes sent for `response` on an HTTP/1.1 connection (see `http11_response_bytes`).
pub fn response_bytes(response: &Response) -> (r: Vec<u8>)
    ensures
        r@ == http11_response_bytes(response@),
{
    proof {
        reveal_strlit("HTTP/1.1 ");
    }
    let mut out = ascii_vec("HTTP/1.1 ");
    let code = decimal_bytes(response.code as u64);
    push_all(&mut out, code.as_slice());
    out.push(32);
    let reason = response.get_code_string();
    let reason_bytes = ascii_vec(reason);
    push_all(&mut out, reason_bytes.as_slice());
    out.push(13);
    out.push(10);
    let ghost head = out@;
    let mut i: usize = 0;
    while i < response.headers.len()
        invariant
            i <= response.headers@.len(),
            out@ == head + header_lines(response@.headers.subrange(0, i as int)),
        decreases response.headers@.len() - i,
    {
        let ghost before = out@;
        push_all(&mut out, response.headers[i].0.as_slice());
        out.push(58);
        out.push(32);
        push_all(&mut out, response.headers[i].1.as_slice());
        out.push(13);
        out.push(10);
        proof {
            let hs = response@.headers.subrange(0, i + 1);
            assert(hs.drop_last() =~= response@.headers.subrange(0, i as int));
            assert(out@ =~= head + header_lines(hs));
        }
        i = i + 1;
    }
    assert(response@.headers.subrange(0, response@.headers.len() as int) =~= response@.headers);
    out.push(13);
    out.push(10);
    match &response.body {
        Some(b) => push_all(&mut out, b.as_slice()),
        None => {},
    }
    assert(out@ =~= http11_response_bytes(response@));
    out
}

} // verus!
