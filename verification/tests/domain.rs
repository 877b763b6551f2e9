use margins::domain::audio::AudioLane;
use margins::domain::capture::{CaptureErrorCode, RetryAdvice, UnavailableCaptureProvider};
use margins::domain::session::SessionLifecycle;
use margins::domain::event::{EventEnvelope, EventErrorCode, EventKind, EventType};
use margins::domain::ids::{EventSequence, SegmentId, SessionId};

#[test]
fn session_lifecycle_rejects_resurrection_after_tombstone() {
    assert!(SessionLifecycle::Active.can_transition_to(SessionLifecycle::Paused));
    assert!(SessionLifecycle::Paused.can_transition_to(SessionLifecycle::Active));
    assert!(!SessionLifecycle::Tombstoned.can_transition_to(SessionLifecycle::Active));
}

#[test]
fn protocol_ids_are_the_same_types_as_core_ids() {
    let core_id: margins::domain::ids::SessionId = "session-1".into();
    let wire_id: margins::protocol::types::SessionId = core_id;
    assert_eq!(wire_id.as_ref(), "session-1");
}

#[test]
fn unavailable_provider_has_typed_stable_behavior() {
    let provider = UnavailableCaptureProvider::default();
    let capabilities = provider.capabilities();
    assert!(!capabilities.available);
    assert!(capabilities.supported_lanes.is_empty());

    let error = provider.permission(AudioLane::Microphone).unwrap_err();
    assert_eq!(error.code, CaptureErrorCode::Unavailable);
}

#[test]
fn unavailable_provider_reports_its_reason_everywhere() {
    let provider = UnavailableCaptureProvider::new("no capture here".to_owned());
    assert_eq!(
        provider.capabilities().unavailable_reason.as_deref(),
        Some("no capture here")
    );
    let devices = provider.devices().unwrap_err();
    assert_eq!(devices.message, "no capture here");
    assert_eq!(devices.retry_advice, Some(RetryAdvice::DoNotRetry));
    let request = provider
        .request_permission(AudioLane::System)
        .unwrap_err();
    assert_eq!(request.code, CaptureErrorCode::Unavailable);
    assert_eq!(
        UnavailableCaptureProvider::default()
            .capabilities()
            .unavailable_reason
            .as_deref(),
        Some("capture is unavailable in this build")
    );
}

#[test]
fn tombstone_is_final_and_reachable() {
    let others = [
        SessionLifecycle::Active,
        SessionLifecycle::Paused,
        SessionLifecycle::Processing,
        SessionLifecycle::Ready,
        SessionLifecycle::NeedsAttention,
    ];
    for state in others {
        assert!(!SessionLifecycle::Tombstoned.can_transition_to(state));
        assert!(state.can_transition_to(SessionLifecycle::Tombstoned));
        assert!(state.can_transition_to(state));
    }
    assert!(SessionLifecycle::Tombstoned.can_transition_to(SessionLifecycle::Tombstoned));
    assert!(!SessionLifecycle::Processing.can_transition_to(SessionLifecycle::Active));
}

fn started_envelope(sequence: u64) -> EventEnvelope {
    EventEnvelope::from_event_v1(
        EventSequence(sequence),
        2,
        SessionId::from("session"),
        Some(SegmentId::from("segment")),
        None,
        EventType::CaptureStarted,
    )
    .unwrap()
}

#[test]
fn typed_event_conversion_keeps_kind_out_of_payload() {
    let envelope = started_envelope(1);
    assert_eq!(envelope.kind.0, "capture.started");
    assert!(envelope.payload_is_object);
    assert!(envelope.extension_keys.is_empty());
}

#[test]
fn v1_validation_uses_the_hardened_protocol_json_integer_limit() {
    let mut envelope = started_envelope(margins::protocol::types::MAX_SAFE_JSON_INTEGER);
    envelope.validate_v1().unwrap();

    envelope.sequence.0 += 1;
    let error = envelope.validate_v1().unwrap_err();
    assert_eq!(error.code, EventErrorCode::InvalidEnvelope);
}

#[test]
fn v1_validation_rejects_ambiguous_or_malformed_envelopes() {
    let mut envelope = EventEnvelope::v1(
        EventSequence(1),
        2,
        SessionId::from("session"),
        EventKind::from("capture.started"),
        true,
    );
    assert_eq!(envelope.validate_v1().unwrap_err().code, EventErrorCode::InvalidEnvelope);

    envelope.segment_id = Some(SegmentId::from("segment"));
    envelope.payload_is_object = false;
    assert_eq!(envelope.validate_v1().unwrap_err().code, EventErrorCode::InvalidEnvelope);

    envelope.payload_is_object = true;
    envelope.extension_keys.push("schema".to_owned());
    assert_eq!(envelope.validate_v1().unwrap_err().code, EventErrorCode::InvalidEnvelope);
}

#[test]
fn every_event_type_has_its_wire_kind() {
    let expected = [
        (EventType::CaptureStarted, "capture.started"),
        (EventType::CaptureLaneStateChanged, "capture.lane_state_changed"),
        (EventType::CaptureHealth, "capture.health"),
        (EventType::CapturePaused, "capture.paused"),
        (EventType::CaptureResumed, "capture.resumed"),
        (EventType::SegmentSealed, "capture.segment_sealed"),
        (EventType::Progress, "session.progress"),
        (EventType::TranscriptEntry, "transcript.entry"),
        (EventType::NoteDelta, "note.delta"),
        (EventType::Failed, "session.failed"),
        (EventType::Cancelled, "session.cancelled"),
        (EventType::Completed, "session.completed"),
    ];
    for (event, kind) in expected {
        assert_eq!(event.kind(), kind);
    }
}

#[test]
fn segment_events_need_a_segment_and_others_do_not() {
    let error = EventEnvelope::from_event_v1(
        EventSequence(1),
        2,
        SessionId::from("session"),
        None,
        None,
        EventType::TranscriptEntry,
    )
    .unwrap_err();
    assert_eq!(error.message, "segment_id is required for segment-scoped events");
    let ok = EventEnvelope::from_event_v1(
        EventSequence(1),
        2,
        SessionId::from("session"),
        None,
        None,
        EventType::Completed,
    )
    .unwrap();
    assert_eq!(ok.kind.0, "session.completed");
    let blank = EventEnvelope::from_event_v1(
        EventSequence(1),
        2,
        SessionId::from("  "),
        None,
        None,
        EventType::Completed,
    )
    .unwrap_err();
    assert_eq!(blank.message, "session_id must not be empty");
}
