//! Event kinds, errors, and validation of the versioned event envelope.
use crate::domain::ids::{CaptureOperationId, EventSequence, SegmentId, SessionId};
use crate::protocol::types::MAX_SAFE_JSON_INTEGER;
use crate::text::{is_blank, is_blank_text, same_text};
use vstd::prelude::*;

verus! {

pub const EVENT_SCHEMA: &'static str = "margins.event";

pub const EVENT_VERSION_V1: u16 = 1;

/// Forward-compatible event kind. Unknown strings are retained verbatim.
#[derive(Debug, Clone, PartialEq, Eq, PartialOrd, Ord, Hash)]
pub struct EventKind(pub String);

impl EventKind {
    pub fn new(value: String) -> (r: Self)
        ensures
            r.0@ == value@,
    {
        EventKind(value)
    }
}

impl From<&str> for EventKind {
    fn from(value: &str) -> (r: Self)
        ensures
            r.0@ == value@,
    {
        EventKind(value.to_owned())
    }
}

impl vstd::std_specs::convert::FromSpecImpl<&str> for EventKind {
    open spec fn obeys_from_spec() -> bool {
        false
    }

    open spec fn from_spec(v: &str) -> Self {
        EventKind(arbitrary())
    }
}

#[derive(Debug, Clone, Copy, PartialEq, Eq, Structural)]
pub enum EventErrorCode {
    Unavailable,
    Rejected,
    InvalidEnvelope,
    Serialization,
    Internal,
}

#[derive(Debug, Clone, PartialEq, Eq)]
pub struct EventError {
    pub code: EventErrorCode,
    pub message: String,
    pub retryable: bool,
}

impl EventError {
    /// A non-retryable envelope violation.
    pub fn invalid_envelope(message: &str) -> (r: Self)
        ensures
            r.code == EventErrorCode::InvalidEnvelope,
            r.message@ == message@,
            !r.retryable,
    {
        EventError { code: EventErrorCode::InvalidEnvelope, message: message.to_owned(), retryable: false }
    }
}

/// Sink for compositions that intentionally discard events.
#[derive(Debug, Clone, Copy, Default, PartialEq, Eq, Structural)]
pub struct NoopEventSink;

/// Kinds whose events belong to one capture segment.
pub open spec fn segment_event_kind(kind: Seq<char>) -> bool {
    ||| kind == "capture.started"@
    ||| kind == "capture.lane_state_changed"@
    ||| kind == "capture.health"@
    ||| kind == "capture.paused"@
    ||| kind == "capture.resumed"@
    ||| kind == "capture.segment_sealed"@
    ||| kind == "transcript.entry"@
}

/// Names of the envelope's own fields.
pub open spec fn envelope_field(key: Seq<char>) -> bool {
    ||| key == "schema"@
    ||| key == "version"@
    ||| key == "sequence"@
    ||| key == "emitted_at_ms"@
    ||| key == "session_id"@
    ||| key == "segment_id"@
    ||| key == "operation_id"@
    ||| key == "kind"@
    ||| key == "payload"@
}

pub fn is_known_segment_event(kind: &str) -> (r: bool)
    ensures
        r == segment_event_kind(kind@),
{
    same_text(kind, "capture.started") || same_text(kind, "capture.lane_state_changed")
        || same_text(kind, "capture.health") || same_text(kind, "capture.paused")
        || same_text(kind, "capture.resumed") || same_text(kind, "capture.segment_sealed")
        || same_text(kind, "transcript.entry")
}

pub fn is_envelope_field(key: &str) -> (r: bool)
    ensures
        r == envelope_field(key@),
{
    same_text(key, "schema") || same_text(key, "version") || same_text(key, "sequence")
        || same_text(key, "emitted_at_ms") || same_text(key, "session_id") || same_text(key, "segment_id")
        || same_text(key, "operation_id") || same_text(key, "kind") || same_text(key, "payload")
}

/// Versioned event representation shared by transports, as validation reads
/// it: the envelope's fields, whether its payload is a JSON object, and the
/// names of the unknown top-level fields it retains.
#[derive(Debug, Clone, PartialEq, Eq)]
pub struct EventEnvelope {
    pub schema: String,
    pub version: u16,
    pub sequence: EventSequence,
    pub emitted_at_ms: u64,
    pub session_id: SessionId,
    pub segment_id: Option<SegmentId>,
    pub operation_id: Option<CaptureOperationId>,
    pub kind: EventKind,
    pub payload_is_object: bool,
    pub extension_keys: Vec<String>,
}

/// The message of the first V1 rule the envelope breaks, checked in this
/// order; `None` when it is valid.
pub open spec fn envelope_problem(h: EventEnvelope) -> Option<Seq<char>> {
    if h.schema@ != "margins.event"@ {
        Some("schema must be margins.event"@)
    } else if h.version != 1 {
        Some("version must be 1"@)
    } else if h.sequence.0 > MAX_SAFE_JSON_INTEGER {
        Some("sequence must be exactly representable by JSON/JavaScript"@)
    } else if h.emitted_at_ms > MAX_SAFE_JSON_INTEGER {
        Some("emitted_at_ms must be exactly representable by JSON/JavaScript"@)
    } else if is_blank_text(h.session_id@) {
        Some("session_id must not be empty"@)
    } else if h.segment_id matches Some(s) && is_blank_text(s@) {
        Some("segment_id must not be empty"@)
    } else if h.operation_id matches Some(o) && is_blank_text(o@) {
        Some("operation_id must not be empty"@)
    } else if is_blank_text(h.kind.0@) {
        Some("kind must not be empty"@)
    } else if !h.payload_is_object {
        Some("payload must be a JSON object"@)
    } else if segment_event_kind(h.kind.0@) && h.segment_id is None {
        Some("segment_id is required for segment-scoped events"@)
    } else if exists|i: int| 0 <= i < h.extension_keys.len() && envelope_field((#[trigger] h.extension_keys@[i])@) {
        Some("extensions must not shadow envelope fields"@)
    } else {
        None
    }
}

/// The message of the first V1 rule broken by an envelope whose schema,
/// version, payload and extensions are those `EventEnvelope::v1` gives it.
pub open spec fn fields_problem(
    sequence: EventSequence,
    emitted_at_ms: u64,
    session_id: SessionId,
    segment_id: Option<SegmentId>,
    operation_id: Option<CaptureOperationId>,
    kind: Seq<char>,
) -> Option<Seq<char>> {
    if sequence.0 > MAX_SAFE_JSON_INTEGER {
        Some("sequence must be exactly representable by JSON/JavaScript"@)
    } else if emitted_at_ms > MAX_SAFE_JSON_INTEGER {
        Some("emitted_at_ms must be exactly representable by JSON/JavaScript"@)
    } else if is_blank_text(session_id@) {
        Some("session_id must not be empty"@)
    } else if segment_id matches Some(s) && is_blank_text(s@) {
        Some("segment_id must not be empty"@)
    } else if operation_id matches Some(o) && is_blank_text(o@) {
        Some("operation_id must not be empty"@)
    } else if is_blank_text(kind) {
        Some("kind must not be empty"@)
    } else if segment_event_kind(kind) && segment_id is None {
        Some("segment_id is required for segment-scoped events"@)
    } else {
        None
    }
}

/// The variant of a typed in-process event; it alone decides the event's
/// kind on the wire.
#[derive(Debug, Clone, Copy, PartialEq, Eq, Structural)]
pub enum EventType {
    CaptureStarted,
    CaptureLaneStateChanged,
    CaptureHealth,
    CapturePaused,
    CaptureResumed,
    SegmentSealed,
    Progress,
    TranscriptEntry,
    NoteDelta,
    Failed,
    Cancelled,
    Completed,
}

pub open spec fn event_kind(t: EventType) -> Seq<char> {
    match t {
        EventType::CaptureStarted => "capture.started"@,
        EventType::CaptureLaneStateChanged => "capture.lane_state_changed"@,
        EventType::CaptureHealth => "capture.health"@,
        EventType::CapturePaused => "capture.paused"@,
        EventType::CaptureResumed => "capture.resumed"@,
        EventType::SegmentSealed => "capture.segment_sealed"@,
        EventType::Progress => "session.progress"@,
        EventType::TranscriptEntry => "transcript.entry"@,
        EventType::NoteDelta => "note.delta"@,
        EventType::Failed => "session.failed"@,
        EventType::Cancelled => "session.cancelled"@,
        EventType::Completed => "session.completed"@,
    }
}

impl EventType {
    /// The envelope kind of events of this variant.
    pub fn kind(&self) -> (r: &'static str)
        ensures
            r@ == event_kind(*self),
    {
        match self {
            EventType::CaptureStarted => "capture.started",
            EventType::CaptureLaneStateChanged => "capture.lane_state_changed",
            EventType::CaptureHealth => "capture.health",
            EventType::CapturePaused => "capture.paused",
            EventType::CaptureResumed => "capture.resumed",
            EventType::SegmentSealed => "capture.segment_sealed",
            EventType::Progress => "session.progress",
            EventType::TranscriptEntry => "transcript.entry",
            EventType::NoteDelta => "note.delta",
            EventType::Failed => "session.failed",
            EventType::Cancelled => "session.cancelled",
            EventType::Completed => "session.completed",
        }
    }
}

impl EventEnvelope {
    /// A V1 envelope with no segment, operation or extension fields.
    pub fn v1(
        sequence: EventSequence,
        emitted_at_ms: u64,
        session_id: SessionId,
        kind: EventKind,
        payload_is_object: bool,
    ) -> (r: Self)
        ensures
            r.schema@ == "margins.event"@,
            r.version == 1,
            r.sequence == sequence,
            r.emitted_at_ms == emitted_at_ms,
            r.session_id == session_id,
            r.segment_id is None,
            r.operation_id is None,
            r.kind == kind,
            r.payload_is_object == payload_is_object,
            r.extension_keys@.len() == 0,
    {
        EventEnvelope {
            schema: EVENT_SCHEMA.to_owned(),
            version: EVENT_VERSION_V1,
            sequence,
            emitted_at_ms,
            session_id,
            segment_id: None,
            operation_id: None,
            kind,
            payload_is_object,
            extension_keys: Vec::new(),
        }
    }

    /// Wraps a typed in-process event in a validated V1 transport envelope.
    /// An event's payload is always a JSON object (empty for variants that
    /// carry no fields).
    pub fn from_event_v1(
        sequence: EventSequence,
        emitted_at_ms: u64,
        session_id: SessionId,
        segment_id: Option<SegmentId>,
        operation_id: Option<CaptureOperationId>,
        event: EventType,
    ) -> (r: Result<Self, EventError>)
        ensures
            r is Ok <==> fields_problem(sequence, emitted_at_ms, session_id, segment_id, operation_id, event_kind(event)) is None,
            r matches Err(e) ==> e.code == EventErrorCode::InvalidEnvelope && !e.retryable
                && fields_problem(sequence, emitted_at_ms, session_id, segment_id, operation_id, event_kind(event)) == Some(e.message@),
            r matches Ok(env) ==> {
                &&& env.schema@ == "margins.event"@
                &&& env.version == 1
                &&& env.sequence == sequence
                &&& env.emitted_at_ms == emitted_at_ms
                &&& env.session_id == session_id
                &&& env.segment_id == segment_id
                &&& env.operation_id == operation_id
                &&& env.kind.0@ == event_kind(event)
                &&& env.payload_is_object
                &&& env.extension_keys@.len() == 0
                &&& envelope_problem(env) is None
            },
    {
        let kind = EventKind::from(event.kind());
        let mut envelope = EventEnvelope::v1(sequence, emitted_at_ms, session_id, kind, true);
        envelope.segment_id = segment_id;
        envelope.operation_id = operation_id;
        match envelope.validate_v1() {
            Ok(()) => Ok(envelope),
            Err(e) => Err(e),
        }
    }

    /// Validates V1 invariants that do not require stream history.
    ///
    /// Stateful sequence monotonicity and duplicate reduction remain the
    /// responsibility of the event-stream owner.
    pub fn validate_v1(&self) -> (r: Result<(), EventError>)
        ensures
            r is Ok <==> envelope_problem(*self) is None,
            r matches Err(e) ==> e.code == EventErrorCode::InvalidEnvelope && !e.retryable
                && envelope_problem(*self) == Some(e.message@),
    {
        if !same_text(self.schema.as_str(), EVENT_SCHEMA) {
            return Err(EventError::invalid_envelope("schema must be margins.event"));
        }
        if self.version != EVENT_VERSION_V1 {
            return Err(EventError::invalid_envelope("version must be 1"));
        }
        if self.sequence.0 > MAX_SAFE_JSON_INTEGER {
            return Err(EventError::invalid_envelope("sequence must be exactly representable by JSON/JavaScript"));
        }
        if self.emitted_at_ms > MAX_SAFE_JSON_INTEGER {
            return Err(EventError::invalid_envelope("emitted_at_ms must be exactly representable by JSON/JavaScript"));
        }
        if is_blank(self.session_id.as_str()) {
            return Err(EventError::invalid_envelope("session_id must not be empty"));
        }
        if let Some(s) = &self.segment_id {
            if is_blank(s.as_str()) {
                return Err(EventError::invalid_envelope("segment_id must not be empty"));
            }
        }
        if let Some(o) = &self.operation_id {
            if is_blank(o.as_str()) {
                return Err(EventError::invalid_envelope("operation_id must not be empty"));
            }
        }
        if is_blank(self.kind.0.as_str()) {
            return Err(EventError::invalid_envelope("kind must not be empty"));
        }
        if !self.payload_is_object {
            return Err(EventError::invalid_envelope("payload must be a JSON object"));
        }
        if is_known_segment_event(self.kind.0.as_str()) && self.segment_id.is_none() {
            return Err(EventError::invalid_envelope("segment_id is required for segment-scoped events"));
        }
        let keys = &self.extension_keys;
        let mut i: usize = 0;
        while i < keys.len()
            invariant
                i <= keys.len(),
                keys == &self.extension_keys,
                envelope_problem(*self) == (if exists|j: int| 0 <= j < keys.len() && envelope_field((#[trigger] keys@[j])@) {
                    Some("extensions must not shadow envelope fields"@)
                } else {
                    None
                }),
                forall|j: int| 0 <= j < i ==> !envelope_field((#[trigger] keys@[j])@),
            decreases keys.len() - i,
        {
            if is_envelope_field(keys[i].as_str()) {
                return Err(EventError::invalid_envelope("extensions must not shadow envelope fields"));
            }
            i = i + 1;
        }
        Ok(())
    }
}

} // verus!
