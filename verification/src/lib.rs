//! Raptor: an HTTP/2 (and HTTP/1.1) static file server, its frame codecs,
//! flow control and connection state machine, verified with Verus.
use vstd::prelude::*;

pub mod config;
pub mod connection;
pub mod handlers;
pub mod hpack;
pub mod http11;
pub mod http2;
pub mod method_handlers;
pub mod mime;
pub mod request;
pub mod response;
pub mod stream_utils;
pub mod tasks;
pub mod vhosts;
pub mod wire;

verus! {

} // verus!
