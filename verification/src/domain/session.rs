//! Persisted session values, the lifecycle they move through, and the
//! repository port.
use crate::domain::audio::{ArtifactDescriptor, DurationMillis, UnixMillis};
use crate::domain::ids::{ArtifactId, SegmentId, SessionId};
use vstd::prelude::*;

verus! {

#[derive(Debug, Clone, Copy, PartialEq, Eq, Structural)]
pub enum SessionLifecycle {
    Active,
    Paused,
    Processing,
    Ready,
    NeedsAttention,
    Tombstoned,
}

/// The lifecycle moves only along these edges; staying put is always allowed
/// and nothing leaves `Tombstoned`.
pub open spec fn lifecycle_edge(from: SessionLifecycle, to: SessionLifecycle) -> bool {
    ||| from == to
    ||| (from == SessionLifecycle::Active && (to == SessionLifecycle::Paused || to == SessionLifecycle::Processing || to == SessionLifecycle::NeedsAttention || to == SessionLifecycle::Tombstoned))
    ||| (from == SessionLifecycle::Paused && (to == SessionLifecycle::Active || to == SessionLifecycle::Processing || to == SessionLifecycle::NeedsAttention || to == SessionLifecycle::Tombstoned))
    ||| (from == SessionLifecycle::Processing && (to == SessionLifecycle::Ready || to == SessionLifecycle::NeedsAttention || to == SessionLifecycle::Tombstoned))
    ||| (from == SessionLifecycle::Ready && (to == SessionLifecycle::Processing || to == SessionLifecycle::NeedsAttention || to == SessionLifecycle::Tombstoned))
    ||| (from == SessionLifecycle::NeedsAttention && (to == SessionLifecycle::Active || to == SessionLifecycle::Processing || to == SessionLifecycle::Ready || to == SessionLifecycle::Tombstoned))
}

impl SessionLifecycle {
    /// Returns whether the centralized lifecycle permits this transition.
    pub fn can_transition_to(self, next: Self) -> (r: bool)
        ensures
            r == lifecycle_edge(self, next),
    {
            match (self, next) {
            (SessionLifecycle::Active, SessionLifecycle::Active) | (SessionLifecycle::Paused, SessionLifecycle::Paused) | (SessionLifecycle::Processing, SessionLifecycle::Processing) | (SessionLifecycle::Ready, SessionLifecycle::Ready)
            | (SessionLifecycle::NeedsAttention, SessionLifecycle::NeedsAttention) | (SessionLifecycle::Tombstoned, SessionLifecycle::Tombstoned) => true,
            (SessionLifecycle::Active, SessionLifecycle::Paused) | (SessionLifecycle::Active, SessionLifecycle::Processing) | (SessionLifecycle::Active, SessionLifecycle::NeedsAttention) | (SessionLifecycle::Active, SessionLifecycle::Tombstoned) => true,
            (SessionLifecycle::Paused, SessionLifecycle::Active) | (SessionLifecycle::Paused, SessionLifecycle::Processing) | (SessionLifecycle::Paused, SessionLifecycle::NeedsAttention) | (SessionLifecycle::Paused, SessionLifecycle::Tombstoned) => true,
            (SessionLifecycle::Processing, SessionLifecycle::Ready) | (SessionLifecycle::Processing, SessionLifecycle::NeedsAttention) | (SessionLifecycle::Processing, SessionLifecycle::Tombstoned) => true,
            (SessionLifecycle::Ready, SessionLifecycle::Processing) | (SessionLifecycle::Ready, SessionLifecycle::NeedsAttention) | (SessionLifecycle::Ready, SessionLifecycle::Tombstoned) => true,
            (SessionLifecycle::NeedsAttention, SessionLifecycle::Active) | (SessionLifecycle::NeedsAttention, SessionLifecycle::Processing) | (SessionLifecycle::NeedsAttention, SessionLifecycle::Ready) | (SessionLifecycle::NeedsAttention, SessionLifecycle::Tombstoned) => true,
            _ => false,
        }
    }
}

/// A tombstoned session can never come back.
pub proof fn lemma_tombstone_is_final(next: SessionLifecycle)
    ensures
        lifecycle_edge(SessionLifecycle::Tombstoned, next) <==> next == SessionLifecycle::Tombstoned,
{
}

/// Every state can be tombstoned.
pub proof fn lemma_tombstone_reachable(from: SessionLifecycle)
    ensures
        lifecycle_edge(from, SessionLifecycle::Tombstoned),
{
}

/// Immutable, sealed segment metadata.
#[derive(Debug, Clone, PartialEq, Eq)]
pub struct SegmentRecord {
    pub id: SegmentId,
    pub ordinal: u64,
    pub start_offset_ms: u64,
    pub duration_ms: DurationMillis,
    pub started_at_ms: UnixMillis,
    pub audio: ArtifactDescriptor,
    pub dropped_live_frames: u64,
    pub dropped_durable_frames: u64,
    pub timeline_reusable: bool,
}

/// Values required to append a sealed segment.
#[derive(Debug, Clone, PartialEq, Eq)]
pub struct NewSegment {
    pub id: SegmentId,
    pub ordinal: u64,
    pub start_offset_ms: u64,
    pub duration_ms: DurationMillis,
    pub started_at_ms: UnixMillis,
    pub audio: ArtifactDescriptor,
    pub dropped_live_frames: u64,
    pub dropped_durable_frames: u64,
    pub timeline_reusable: bool,
}

impl From<NewSegment> for SegmentRecord {
    fn from(value: NewSegment) -> (r: Self)
        ensures
            r == (SegmentRecord {
                id: value.id,
                ordinal: value.ordinal,
                start_offset_ms: value.start_offset_ms,
                duration_ms: value.duration_ms,
                started_at_ms: value.started_at_ms,
                audio: value.audio,
                dropped_live_frames: value.dropped_live_frames,
                dropped_durable_frames: value.dropped_durable_frames,
                timeline_reusable: value.timeline_reusable,
            }),
    {
        SegmentRecord {
            id: value.id,
            ordinal: value.ordinal,
            start_offset_ms: value.start_offset_ms,
            duration_ms: value.duration_ms,
            started_at_ms: value.started_at_ms,
            audio: value.audio,
            dropped_live_frames: value.dropped_live_frames,
            dropped_durable_frames: value.dropped_durable_frames,
            timeline_reusable: value.timeline_reusable,
        }
    }
}

impl vstd::std_specs::convert::FromSpecImpl<NewSegment> for SegmentRecord {
    open spec fn obeys_from_spec() -> bool {
        true
    }

    open spec fn from_spec(value: NewSegment) -> Self {
        SegmentRecord {
            id: value.id,
            ordinal: value.ordinal,
            start_offset_ms: value.start_offset_ms,
            duration_ms: value.duration_ms,
            started_at_ms: value.started_at_ms,
            audio: value.audio,
            dropped_live_frames: value.dropped_live_frames,
            dropped_durable_frames: value.dropped_durable_frames,
            timeline_reusable: value.timeline_reusable,
        }
    }
}

/// Registered artifact associated with a session.
#[derive(Debug, Clone, PartialEq, Eq)]
pub struct SessionArtifact {
    pub id: ArtifactId,
    pub session_id: SessionId,
    pub kind: String,
    pub ordinal: u64,
    pub uri: String,
    pub retention_class: String,
    pub created_at_ms: UnixMillis,
    pub expires_at_ms: Option<UnixMillis>,
}

/// Inputs for creating a durable session.
#[derive(Debug, Clone, PartialEq, Eq)]
pub struct NewSession {
    pub id: SessionId,
    pub started_at_ms: UnixMillis,
    pub created_at_ms: UnixMillis,
    pub title: Option<String>,
    pub note_uri: Option<String>,
}

/// Complete persisted session aggregate.
#[derive(Debug, Clone, PartialEq, Eq)]
pub struct SessionRecord {
    pub id: SessionId,
    pub revision: u64,
    pub lifecycle: SessionLifecycle,
    pub started_at_ms: UnixMillis,
    pub created_at_ms: UnixMillis,
    pub updated_at_ms: UnixMillis,
    pub title: Option<String>,
    pub note_uri: Option<String>,
    pub note_error: Option<String>,
    pub segments: Vec<SegmentRecord>,
    pub artifacts: Vec<SessionArtifact>,
}

#[derive(Debug, Clone, PartialEq, Eq)]
pub struct SessionSummary {
    pub id: SessionId,
    pub revision: u64,
    pub lifecycle: SessionLifecycle,
    pub started_at_ms: UnixMillis,
    pub title: Option<String>,
    pub segment_count: u64,
}

#[derive(Debug, Clone, PartialEq, Eq)]
pub struct SessionQuery {
    pub lifecycle: Option<SessionLifecycle>,
    pub started_after_ms: Option<UnixMillis>,
    pub started_before_ms: Option<UnixMillis>,
    pub limit: Option<u32>,
}

impl Default for SessionQuery {
    fn default() -> (r: Self)
        ensures
            r.lifecycle is None,
            r.started_after_ms is None,
            r.started_before_ms is None,
            r.limit is None,
    {
        SessionQuery { lifecycle: None, started_after_ms: None, started_before_ms: None, limit: None }
    }
}

#[derive(Debug, Clone, Copy, PartialEq, Eq, Structural)]
pub enum SessionErrorCode {
    NotFound,
    AlreadyExists,
    Conflict,
    InvalidTransition,
    InvalidSegment,
    Unavailable,
    CorruptData,
    Internal,
}

#[derive(Debug, Clone, PartialEq, Eq)]
pub struct SessionError {
    pub code: SessionErrorCode,
    pub message: String,
    pub retryable: bool,
}

impl SessionError {
    /// A retryable revision conflict.
    pub fn conflict(message: String) -> (r: Self)
        ensures
            r.code == SessionErrorCode::Conflict,
            r.message@ == message@,
            r.retryable,
    {
        SessionError { code: SessionErrorCode::Conflict, message, retryable: true }
    }
}

/// Durable session storage with revision-guarded mutations.
pub trait SessionRepository {
    fn create(&self, new: NewSession) -> Result<SessionRecord, SessionError>;

    fn get(&self, id: &SessionId) -> Result<Option<SessionRecord>, SessionError>;

    fn list(&self, query: SessionQuery) -> Result<Vec<SessionSummary>, SessionError>;

    fn append_segment(&self, id: &SessionId, expected_revision: u64, segment: NewSegment) -> Result<SessionRecord, SessionError>;

    fn transition(&self, id: &SessionId, expected_revision: u64, next: SessionLifecycle) -> Result<SessionRecord, SessionError>;

    /// Inserts or replaces an artifact as one revision-guarded aggregate mutation.
    fn upsert_artifact(&self, expected_revision: u64, artifact: SessionArtifact) -> Result<SessionRecord, SessionError>;

    fn tombstone(&self, id: &SessionId, expected_revision: u64) -> Result<(), SessionError>;
}

} // verus!
