//! Platform-neutral media arithmetic and transcript shaping.
pub mod audio_buffer;
pub mod channels;
pub mod checkpoints;
pub mod diarization;
pub mod greedy_tdt;
pub mod ort_runtime;
pub mod live;
pub mod long_form;
pub mod providers;
pub mod streaming;
pub mod tdt_chunk;
pub mod timed_tokens;
pub mod timeline;
pub mod token_words;
pub mod tokens;
pub mod transcript;
pub mod vocabulary;
