//! Requests as the handlers see them: a method and a path.
use vstd::prelude::*;

use crate::wire::ascii;

verus! {

/// Why a request cannot be served.
#[derive(Debug, Clone, PartialEq)]
pub enum RequestError<'a> {
    /// A method other than GET, DELETE, PUT and HEAD (the method's bytes).
    UnsupportedMethod(&'a [u8]),
    /// The method or the path is missing.
    MalformedRequest,
}

/// The methods the server knows.
#[derive(Debug, Clone, Copy, PartialEq, Eq, Structural)]
pub enum RequestType {
    Get,
    Delete,
    Put,
    Head,
}

/// ASCII lower case of one byte.
pub open spec fn to_lower(b: u8) -> u8 {
    if 65 <= b <= 90 {
        (b + 32) as u8
    } else {
        b
    }
}

/// ASCII lower case of a byte string.
pub open spec fn lowercase(s: Seq<u8>) -> Seq<u8> {
    s.map_values(|b: u8| to_lower(b))
}

/// The method a request line names, compared without regard to ASCII case.
pub open spec fn method_of(value: Seq<u8>) -> Option<RequestType> {
    if lowercase(value) == ascii("get"@) {
        Some(RequestType::Get)
    } else if lowercase(value) == ascii("delete"@) {
        Some(RequestType::Delete)
    } else if lowercase(value) == ascii("put"@) {
        Some(RequestType::Put)
    } else if lowercase(value) == ascii("head"@) {
        Some(RequestType::Head)
    } else {
        None
    }
}

/// The method of a request line does not depend on ASCII case: a method
/// name and its lower case name the same method.
pub proof fn lemma_method_ignores_case(value: Seq<u8>)
    ensures
        method_of(lowercase(value)) == method_of(value),
{
    assert(lowercase(lowercase(value)) =~= lowercase(value));
}

/// Whether `value`, lower-cased, is the lower-case ASCII string `lit`.
fn lower_equals(value: &[u8], lit: &str) -> (r: bool)
    requires
        vstd::string::is_ascii(lit),
    ensures
        r == (lowercase(value@) == ascii(lit@)),
{
    let bytes = lit.as_bytes();
    proof {
        vstd::string::is_ascii_spec_bytes(lit);
    }
    assert(bytes@ =~= ascii(lit@));
    if value.len() != bytes.len() {
        assert(lowercase(value@).len() != ascii(lit@).len());
        return false;
    }
    let mut i: usize = 0;
    while i < value.len()
        invariant
            i <= value@.len() == bytes@.len(),
            bytes@ == ascii(lit@),
            forall|j: int| 0 <= j < i ==> to_lower(value@[j]) == bytes@[j],
        decreases value@.len() - i,
    {
        let b = value[i];
        let lower = if 65 <= b && b <= 90 {
            b + 32
        } else {
            b
        };
        if lower != bytes[i] {
            assert(lowercase(value@)[i as int] != ascii(lit@)[i as int]);
            return false;
        }
        i = i + 1;
    }
    assert(lowercase(value@) =~= ascii(lit@));
    true
}

impl RequestType {
    /// The method named by `value`, without regard to ASCII case;
    /// `UnsupportedMethod(value)` for any other.
    pub fn try_from<'a>(value: &'a [u8]) -> (r: Result<RequestType, RequestError<'a>>)
        ensures
            match method_of(value@) {
                Some(t) => r == Ok::<RequestType, RequestError<'a>>(t),
                None => r == Err::<RequestType, RequestError<'a>>(RequestError::UnsupportedMethod(value)),
            },
    {
        proof {
            reveal_strlit("get");
            reveal_strlit("delete");
            reveal_strlit("put");
            reveal_strlit("head");
        }
        if lower_equals(value, "get") {
            Ok(Self::Get)
        } else if lower_equals(value, "delete") {
            Ok(Self::Delete)
        } else if lower_equals(value, "put") {
            Ok(Self::Put)
        } else if lower_equals(value, "head") {
            Ok(Self::Head)
        } else {
            Err(RequestError::UnsupportedMethod(value))
        }
    }
}

/// A request whose method and path the handlers can read.
pub trait HttpRequest {
    /// The method, or `None` when `get_type` fails.
    spec fn request_type(&self) -> Option<RequestType>;

    /// The path, or `None` when `get_uri` fails.
    spec fn request_uri(&self) -> Option<Seq<u8>>;

    fn get_type(&self) -> (r: Result<RequestType, RequestError<'_>>)
        ensures
            match r {
                Ok(t) => self.request_type() == Some(t),
                Err(_) => self.request_type() is None,
            },
    ;

    fn get_uri(&self) -> (r: Result<&[u8], RequestError<'_>>)
        ensures
            match r {
                Ok(u) => self.request_uri() == Some(u@),
                Err(_) => self.request_uri() is None,
            },
    ;

    /// The request body; none by default.
    fn get_payload(&self) -> (r: Option<&[u8]>)
        default_ensures
            r is None,
    {
        None
    }
}

} // verus!
