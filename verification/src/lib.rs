//! Verified core of the Margins meeting recorder: wire validation, the
//! durable meeting state machine, transcript shaping and CLI presentation.
pub mod cli;
pub mod domain;
pub mod media;
pub mod protocol;
pub mod text;
pub mod runtime;
