//! Requests as the `h2` crate hands them over, read by the handlers.
use vstd::prelude::*;

use crate::request::{HttpRequest, RequestError, RequestType};
use crate::tasks::frames::exact_method;
use crate::wire::ascii;

verus! {

/// A request of an `h2` connection: its method's name and its path with
/// query, if the URI has one.
#[derive(Debug)]
pub struct Http2Request {
    method: Vec<u8>,
    path_and_query: Option<Vec<u8>>,
}

impl Http2Request {
    pub fn new(method: Vec<u8>, path_and_query: Option<Vec<u8>>) -> (r: Self)
        ensures
            r.spec_method() == method@,
            r.spec_path() == match path_and_query {
                Some(p) => Some(p@),
                None => None,
            },
    {
        Self { method, path_and_query }
    }

    /// The method's name.
    pub closed spec fn spec_method(&self) -> Seq<u8> {
        self.method@
    }

    /// The path with query, if any.
    pub closed spec fn spec_path(&self) -> Option<Seq<u8>> {
        match self.path_and_query {
            Some(p) => Some(p@),
            None => None,
        }
    }
}

impl HttpRequest for Http2Request {
    open spec fn request_type(&self) -> Option<RequestType> {
        exact_method(self.spec_method())
    }

    open spec fn request_uri(&self) -> Option<Seq<u8>> {
        self.spec_path()
    }

    /// `GET`, `DELETE`, `PUT` and `HEAD`, compared exactly;
    /// `UnsupportedMethod` with the method's name for any other.
    fn get_type(&self) -> (r: Result<RequestType, RequestError<'_>>) {
        proof {
            reveal_strlit("GET");
            reveal_strlit("PUT");
            reveal_strlit("HEAD");
            reveal_strlit("DELETE");
        }
        assert(ascii("GET"@).len() == 3 && ascii("PUT"@).len() == 3 && ascii("HEAD"@).len() == 4 && ascii("DELETE"@).len() == 6);
        assert(ascii("GET"@)[0] != ascii("PUT"@)[0]);
        let m = self.method.as_slice();
        if crate::wire::bytes_eq(m, crate::wire::ascii_vec("GET").as_slice()) {
            Ok(RequestType::Get)
        } else if crate::wire::bytes_eq(m, crate::wire::ascii_vec("DELETE").as_slice()) {
            Ok(RequestType::Delete)
        } else if crate::wire::bytes_eq(m, crate::wire::ascii_vec("PUT").as_slice()) {
            Ok(RequestType::Put)
        } else if crate::wire::bytes_eq(m, crate::wire::ascii_vec("HEAD").as_slice()) {
            Ok(RequestType::Head)
        } else {
            Err(RequestError::UnsupportedMethod(m))
        }
    }

    /// The path with query; `MalformedRequest` when the URI has none.
    fn get_uri(&self) -> (r: Result<&[u8], RequestError<'_>>) {
        match &self.path_and_query {
            Some(p) => Ok(p.as_slice()),
            None => Err(RequestError::MalformedRequest),
        }
    }
}

} // verus!
