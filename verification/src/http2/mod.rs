//! HTTP/2: the connection preface, frames, and how frames are written.
use vstd::prelude::*;

pub mod frames;
pub mod response;
pub mod stream;

verus! {

/// The client connection preface, `PRI * HTTP/2.0\r\n\r\nSM\r\n\r\n` (RFC 9113 3.4).
pub open spec fn connection_preface() -> Seq<u8> {
    seq![
        0x50u8, 0x52, 0x49, 0x20, 0x2a, 0x20, 0x48, 0x54, 0x54, 0x50, 0x2f, 0x32, 0x2e, 0x30, 0x0d,
        0x0a, 0x0d, 0x0a, 0x53, 0x4d, 0x0d, 0x0a, 0x0d, 0x0a,
    ]
}

/// The 24 bytes of the client connection preface.
pub fn connection_preface_bytes() -> (r: Vec<u8>)
    ensures
        r@ == connection_preface(),
{
    let r: Vec<u8> = vec![
        0x50u8, 0x52, 0x49, 0x20, 0x2a, 0x20, 0x48, 0x54, 0x54, 0x50, 0x2f, 0x32, 0x2e, 0x30, 0x0d,
        0x0a, 0x0d, 0x0a, 0x53, 0x4d, 0x0d, 0x0a, 0x0d, 0x0a,
    ];
    assert(r@ =~= connection_preface());
    r
}

/// Whether `bytes` begins with the connection preface.
pub open spec fn starts_with_preface(bytes: Seq<u8>) -> bool {
    bytes.len() >= 24 && bytes.subrange(0, 24) == connection_preface()
}

/// `Some(24)`, the number of bytes to consume, when `bytes` begins with the
/// connection preface; `None` otherwise.
pub fn check_connection_preface(bytes: &[u8]) -> (r: Option<usize>)
    ensures
        starts_with_preface(bytes@) ==> r == Some(24usize),
        !starts_with_preface(bytes@) ==> r is None,
{
    let preface = connection_preface_bytes();
    if bytes.len() < 24 {
        return None;
    }
    let mut i: usize = 0;
    while i < 24
        invariant
            i <= 24 <= bytes@.len(),
            preface@ == connection_preface(),
            forall|j: int| 0 <= j < i ==> bytes@[j] == connection_preface()[j],
        decreases 24 - i,
    {
        if bytes[i] != preface[i] {
            assert(bytes@.subrange(0, 24)[i as int] != connection_preface()[i as int]);
            return None;
        }
        i = i + 1;
    }
    assert(bytes@.subrange(0, 24) =~= connection_preface());
    Some(24)
}

} // verus!
