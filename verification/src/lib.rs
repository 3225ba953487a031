//! Battery telemetry for a headset and its two controllers: diagnostic text in,
//! three battery levels and their outbound messages out.

pub mod extract;
pub mod levels;
pub mod pattern;
pub mod source;
pub mod text;
