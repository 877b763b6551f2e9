//! Transcript and diarization values and their typed errors.
use crate::domain::audio::AudioLane;
use crate::domain::ids::{SpeakerId, TranscriptEntryId};
use vstd::prelude::*;

verus! {

/// Word-level ASR timing in session-relative milliseconds.
#[derive(Debug, Clone, PartialEq, Eq)]
pub struct TranscriptWord {
    pub start_ms: u64,
    pub end_ms: u64,
    pub text: String,
    pub speaker: Option<SpeakerId>,
    pub confidence_per_mille: Option<u16>,
}

/// One display/reduction unit in a transcript stream.
#[derive(Debug, Clone, PartialEq, Eq)]
pub struct TranscriptEntry {
    pub id: TranscriptEntryId,
    pub start_ms: u64,
    pub end_ms: u64,
    pub text: String,
    pub speaker: Option<SpeakerId>,
    pub lane: Option<AudioLane>,
    pub words: Vec<TranscriptWord>,
}

#[derive(Debug, Clone, PartialEq, Eq)]
pub struct AsrResult {
    pub words: Vec<TranscriptWord>,
    pub detected_language: Option<String>,
}

#[derive(Debug, Clone, Copy, PartialEq, Eq, Structural)]
pub enum TranscriptErrorCode {
    Unavailable,
    InvalidAudio,
    ModelLoadFailed,
    InferenceFailed,
    Cancelled,
    Internal,
}

#[derive(Debug, Clone, PartialEq, Eq)]
pub struct TranscriptError {
    pub code: TranscriptErrorCode,
    pub message: String,
    pub retryable: bool,
}

/// One speaker turn emitted by a diarization backend.
#[derive(Debug, Clone, PartialEq, Eq)]
pub struct SpeakerSegment {
    pub start_ms: u64,
    pub end_ms: u64,
    pub speaker: SpeakerId,
}

#[derive(Debug, Clone, PartialEq, Eq)]
pub struct DiarizationResult {
    pub segments: Vec<SpeakerSegment>,
}

#[derive(Debug, Clone, Copy, PartialEq, Eq, Structural)]
pub enum DiarizationErrorCode {
    Unavailable,
    InvalidAudio,
    ModelLoadFailed,
    InferenceFailed,
    Cancelled,
    Internal,
}

#[derive(Debug, Clone, PartialEq, Eq)]
pub struct DiarizationError {
    pub code: DiarizationErrorCode,
    pub message: String,
    pub retryable: bool,
}

} // verus!
