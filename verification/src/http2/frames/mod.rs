//! HTTP/2 frames: their headers, payloads, and how they are read and written.
pub mod continuation;
pub mod data;
pub mod frame;
pub mod go_away;
pub mod headers;
pub mod ping;
pub mod reset_stream;
pub mod settings;
pub mod window_update;

pub use continuation::Continuation;
pub use data::Data;
pub use frame::{
    frame_header_bytes, frame_type_of, parse_frame_header, Frame, FrameError, FrameType,
    FRAME_HEADER_LENGTH, MAX_FRAME_SIZE, MIN_FRAME_SIZE,
};
pub use go_away::{error_type_of, ErrorType, GoAway};
pub use headers::Headers;
pub use ping::{Ping, PING_LENGTH};
pub use reset_stream::ResetStream;
pub use settings::{Setting, SettingKind, Settings};
pub use window_update::WindowUpdate;
