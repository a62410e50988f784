//! A second HTTP/2 server, with a task per stream: frame parsing, per-stream
//! flow control and response sending, and the connection's dispatch of frames.
pub mod frames;
pub mod request;
pub mod server;
pub mod streams;
