use raptor::http2::{check_connection_preface, connection_preface_bytes};

/// The 24 bytes every HTTP/2 client sends first (RFC 9113 3.4).
const EXPECTED_MAGIC: &[u8; 24] = b"PRI * HTTP/2.0\r\n\r\nSM\r\n\r\n";

#[test]
fn test_connection_magic_correct() {
    let preface = connection_preface_bytes();
    assert_eq!(preface.as_slice(), EXPECTED_MAGIC);
}

#[test]
fn preface_is_found_at_the_start() {
    let mut bytes = EXPECTED_MAGIC.to_vec();
    bytes.extend_from_slice(&[0, 0, 0, 4, 0, 0, 0, 0, 0]);
    assert_eq!(check_connection_preface(&bytes), Some(24));
}

#[test]
fn preface_missing_or_short() {
    assert_eq!(check_connection_preface(b"GET / HTTP/1.1\r\n\r\n"), None);
    assert_eq!(check_connection_preface(&EXPECTED_MAGIC[..23]), None);
}
