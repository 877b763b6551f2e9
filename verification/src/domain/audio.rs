//! Platform-neutral audio and artifact values.
use crate::domain::ids::{ArtifactId, SegmentId};
use vstd::prelude::*;

pub use crate::protocol::types::{DurationMillis, SessionMillis, UnixMillis};

verus! {

/// A logical mono lane in a capture session.
#[derive(Debug, Clone, Copy, PartialEq, Eq, PartialOrd, Ord, Hash, Structural)]
pub enum AudioLane {
    Microphone,
    System,
}

/// Sample encoding for a durable artifact.
#[derive(Debug, Clone, Copy, PartialEq, Eq, Structural)]
pub enum SampleFormat {
    Float32,
    Signed16,
}

/// Describes decoded PCM without exposing a codec or device handle.
#[derive(Debug, Clone, Copy, PartialEq, Eq, Structural)]
pub struct AudioFormat {
    pub sample_rate_hz: u32,
    pub channel_count: u16,
    pub sample_format: SampleFormat,
}

/// Application-selected durable destination. The URI is opaque here.
#[derive(Debug, Clone, PartialEq, Eq)]
pub struct ArtifactDestination {
    pub uri: String,
}

/// A completed durable artifact returned by a provider or repository.
#[derive(Debug, Clone, PartialEq, Eq)]
pub struct ArtifactDescriptor {
    pub id: ArtifactId,
    pub segment_id: SegmentId,
    pub lane: Option<AudioLane>,
    pub uri: String,
    pub format: AudioFormat,
    pub duration_ms: DurationMillis,
    pub frame_count: u64,
    pub byte_length: Option<u64>,
}

} // verus!
