//! Streaming dictation core: resampling of captured audio, speech and
//! endpoint detection, the session state machine around a streaming
//! recognizer, and the key combinations that deliver the final text.

pub mod capture;
pub mod config;
pub mod injector;
pub mod pipeline;
pub mod resampler;
pub mod state;
pub mod vad;
pub mod wayland;
