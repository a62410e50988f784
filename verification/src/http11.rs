//! HTTP/1.1 requests: the request head as `httparse` reads it, and the
//! method and path the handlers need.
use vstd::prelude::*;

use crate::request::{method_of, HttpRequest, RequestError, RequestType};

verus! {

/// An HTTP/1.1 request head as parsed: complete, with its method, path and
/// header list (name, value); not all there yet; or not a request head.
#[derive(Debug)]
pub enum ParsedHead {
    Complete(Option<Vec<u8>>, Option<Vec<u8>>, Vec<(String, Vec<u8>)>),
    Partial,
    Invalid,
}

/// A parsed request head, by value.
pub enum ParsedHeadView {
    Complete(Option<Seq<u8>>, Option<Seq<u8>>, Seq<(Seq<char>, Seq<u8>)>),
    Partial,
    Invalid,
}

/// A header list of text names and byte values, by value.
pub open spec fn named_values_view(v: Seq<(String, Vec<u8>)>) -> Seq<(Seq<char>, Seq<u8>)> {
    v.map_values(|p: (String, Vec<u8>)| (p.0@, p.1@))
}

/// A byte string, by value, if there is one.
pub open spec fn opt_view(o: Option<Vec<u8>>) -> Option<Seq<u8>> {
    match o {
        Some(v) => Some(v@),
        None => None,
    }
}

impl View for ParsedHead {
    type V = ParsedHeadView;

    open spec fn view(&self) -> ParsedHeadView {
        match self {
            ParsedHead::Complete(m, p, h) => ParsedHeadView::Complete(
                opt_view(*m),
                opt_view(*p),
                named_values_view(h@),
            ),
            ParsedHead::Partial => ParsedHeadView::Partial,
            ParsedHead::Invalid => ParsedHeadView::Invalid,
        }
    }
}

/// What `httparse` makes of the bytes of a request head, with room for 64 headers.
pub uninterp spec fn parse_head(buf: Seq<u8>) -> ParsedHeadView;

/// `httparse::Request::parse`, with room for 64 headers: `Complete` with the
/// method, path and headers it read, `Partial`, or `Invalid` for any error.
/// The parse depends on the bytes alone, so its outcome is named
/// `parse_head`; a complete head always has its method and path (the parser
/// sets both before it can report completion).
#[verifier::external_body]
fn parse_request_head(buf: &[u8]) -> (r: ParsedHead)
    ensures
        r@ == parse_head(buf@),
        r@ matches ParsedHeadView::Complete(m, p, _) ==> m is Some && p is Some,
{
    let mut headers = [httparse::EMPTY_HEADER; 64];
    let mut req = httparse::Request::new(&mut headers);
    match req.parse(buf) {
        Ok(httparse::Status::Complete(_)) => ParsedHead::Complete(
            req.method.map(|m| m.as_bytes().to_vec()),
            req.path.map(|p| p.as_bytes().to_vec()),
            req.headers.iter().map(|h| (h.name.to_string(), h.value.to_vec())).collect(),
        ),
        Ok(httparse::Status::Partial) => ParsedHead::Partial,
        Err(_) => ParsedHead::Invalid,
    }
}

/// Parses the bytes of a request head received so far (see `parse_head`).
pub fn read_request_head(buf: &[u8]) -> (r: ParsedHead)
    ensures
        r@ == parse_head(buf@),
        r@ matches ParsedHeadView::Complete(m, p, _) ==> m is Some && p is Some,
{
    parse_request_head(buf)
}

/// An HTTP/1.1 request: its method and its path.
#[derive(Debug)]
pub struct Request<'buf> {
    ty: RequestType,
    uri: &'buf [u8],
}

impl<'buf> Request<'buf> {
    /// The method.
    pub closed spec fn spec_type(&self) -> RequestType {
        self.ty
    }

    /// The path.
    pub closed spec fn spec_uri(&self) -> Seq<u8> {
        self.uri@
    }

    /// The request of a method and a path: `MalformedRequest` when the method
    /// is missing, `UnsupportedMethod` when the server does not know it,
    /// `MalformedRequest` when the path is missing.
    pub fn try_from(method: Option<&'buf [u8]>, path: Option<&'buf [u8]>) -> (r: Result<Self, RequestError<'buf>>)
        ensures
            match method {
                None => r == Err::<Request, RequestError>(RequestError::MalformedRequest),
                Some(m) => match method_of(m@) {
                    None => r == Err::<Request, RequestError>(RequestError::UnsupportedMethod(m)),
                    Some(t) => match path {
                        None => r == Err::<Request, RequestError>(RequestError::MalformedRequest),
                        Some(u) => r matches Ok(req) && req.spec_type() == t && req.spec_uri() == u@,
                    },
                },
            },
    {
        let m = match method {
            Some(m) => m,
            None => {
                return Err(RequestError::MalformedRequest);
            },
        };
        let ty = match RequestType::try_from(m) {
            Ok(t) => t,
            Err(e) => {
                return Err(e);
            },
        };
        match path {
            Some(uri) => Ok(Self { ty, uri }),
            None => Err(RequestError::MalformedRequest),
        }
    }
}

impl<'buf> HttpRequest for Request<'buf> {
    open spec fn request_type(&self) -> Option<RequestType> {
        Some(self.spec_type())
    }

    open spec fn request_uri(&self) -> Option<Seq<u8>> {
        Some(self.spec_uri())
    }

    fn get_type(&self) -> (r: Result<RequestType, RequestError<'_>>) {
        Ok(self.ty)
    }

    fn get_uri(&self) -> (r: Result<&[u8], RequestError<'_>>) {
        Ok(self.uri)
    }
}

} // verus!
