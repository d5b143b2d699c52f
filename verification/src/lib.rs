//! A terminal front-end for the Homebrew package manager, with its event and
//! state core verified: the modal state machine that applies background
//! events, interprets key input per mode, and keeps its log buffers bounded,
//! together with the parsers for the tool's text and JSON output.

pub mod app;
pub mod brew;
pub mod keys;
pub mod laws;
mod json;
pub mod status;
pub mod strutil;
