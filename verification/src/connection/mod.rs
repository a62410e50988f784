//! Connections: HTTP/2 after the TLS handshake chose `h2`, HTTP/1.1 otherwise.
use vstd::prelude::*;

use crate::wire::ascii;

pub mod http11;
pub mod http2;

pub use self::http2::{
    check_connection_preface, go_away_frame_bytes, ConnectionError, ConnectionResult,
};

verus! {

/// The protocol a TLS connection goes on with.
#[derive(Debug, Clone, Copy, PartialEq, Eq, Structural)]
pub enum Protocol {
    Http2,
    Http11,
    /// Another protocol was negotiated: the connection is closed.
    Unsupported,
}

/// The protocol for what ALPN negotiated: `h2` is HTTP/2, `http/1.1` and
/// nothing at all are HTTP/1.1, anything else is not served.
pub open spec fn protocol_of(alpn: Option<Seq<u8>>) -> Protocol {
    match alpn {
        None => Protocol::Http11,
        Some(p) => if p == ascii("h2"@) {
            Protocol::Http2
        } else if p == ascii("http/1.1"@) {
            Protocol::Http11
        } else {
            Protocol::Unsupported
        },
    }
}

/// The protocol for what ALPN negotiated (see `protocol_of`).
pub fn do_connection(alpn: Option<&[u8]>) -> (r: Protocol)
    ensures
        r == protocol_of(
            match alpn {
                Some(p) => Some(p@),
                None => None,
            },
        ),
{
    proof {
        reveal_strlit("h2");
        reveal_strlit("http/1.1");
    }
    match alpn {
        None => Protocol::Http11,
        Some(p) => {
            if crate::wire::bytes_eq(p, crate::wire::ascii_vec("h2").as_slice()) {
                Protocol::Http2
            } else if crate::wire::bytes_eq(p, crate::wire::ascii_vec("http/1.1").as_slice()) {
                Protocol::Http11
            } else {
                Protocol::Unsupported
            }
        },
    }
}

/// Protocol choice: whatever ALPN negotiated, the connection goes on as
/// HTTP/2 exactly when it was `h2` (the bytes 0x68 0x32), as HTTP/1.1 exactly
/// when it was `http/1.1` or nothing was negotiated, and is closed otherwise.
pub proof fn lemma_alpn_chooses_protocol(alpn: Option<Seq<u8>>)
    ensures
        (protocol_of(alpn) == Protocol::Http2) <==> alpn == Some(seq![0x68u8, 0x32u8]),
        (protocol_of(alpn) == Protocol::Http11) <==> (alpn is None || alpn == Some(
            seq![0x68u8, 0x74u8, 0x74u8, 0x70u8, 0x2fu8, 0x31u8, 0x2eu8, 0x31u8],
        )),
        (protocol_of(alpn) == Protocol::Unsupported) <==> (alpn matches Some(p) && p != seq![0x68u8, 0x32u8]
            && p != seq![0x68u8, 0x74u8, 0x74u8, 0x70u8, 0x2fu8, 0x31u8, 0x2eu8, 0x31u8]),
{
    reveal_strlit("h2");
    reveal_strlit("http/1.1");
    assert(ascii("h2"@) =~= seq![0x68u8, 0x32u8]);
    assert(ascii("http/1.1"@) =~= seq![0x68u8, 0x74u8, 0x74u8, 0x70u8, 0x2fu8, 0x31u8, 0x2eu8, 0x31u8]);
}

} // verus!
