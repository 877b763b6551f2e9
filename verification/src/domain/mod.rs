//! Portable domain values: audio, capture, sessions, transcripts and events.
pub mod audio;
pub mod capture;
pub mod event;
pub mod ids;
pub mod memo;
pub mod session;
pub mod transcript;
