use margins::cli::capture_flow::{capture_step, CaptureAction, CaptureEvent, CaptureFailure, CaptureFlow, CapturePhase};
use margins::domain::audio::{ArtifactDescriptor, AudioFormat, AudioLane, SampleFormat};
use margins::domain::capture::{CaptureError, CaptureErrorCode, CaptureState, PermissionState};
use margins::protocol::types::{ArtifactId, DurationMillis, SegmentId};

fn is_store(action: &CaptureAction) -> bool {
    matches!(
        action,
        CaptureAction::CreateStoreDir
            | CaptureAction::WriteMemo { .. }
            | CaptureAction::CreateSession { .. }
            | CaptureAction::SetTitle { .. }
            | CaptureAction::AppendSegment { .. }
            | CaptureAction::WriteCurrentSession { .. }
            | CaptureAction::SetSegmentDuration { .. }
            | CaptureAction::RegisterArtifact { .. }
    )
}

/// Answers each action the flow asks for with the next scripted event.
fn run(mut flow: CaptureFlow, first: CaptureAction, events: Vec<CaptureEvent>) -> (CaptureFlow, Vec<CaptureAction>) {
    let mut actions = vec![first];
    for event in events {
        let (next, action) = capture_step(flow, event);
        flow = next;
        actions.push(action);
    }
    (flow, actions)
}

fn artifact(lane: Option<AudioLane>, duration_ms: u64, uri: &str) -> ArtifactDescriptor {
    ArtifactDescriptor {
        id: ArtifactId(uri.to_owned()),
        segment_id: SegmentId::from("s-segment-0"),
        lane,
        uri: uri.to_owned(),
        format: AudioFormat { sample_rate_hz: 48_000, channel_count: 1, sample_format: SampleFormat::Float32 },
        duration_ms: DurationMillis(duration_ms),
        frame_count: 0,
        byte_length: None,
    }
}

#[test]
fn a_new_session_starts_before_anything_is_stored() {
    let (flow, first) = CaptureFlow::begin(true, None, Some("Standup".to_owned()));
    let (flow, actions) = run(
        flow,
        first,
        vec![
            CaptureEvent::Availability { available: true },
            CaptureEvent::NameChosen { name: "s".to_owned() },
            CaptureEvent::SupportedLanes { lanes: vec![] },
            CaptureEvent::Permission { state: PermissionState::Granted },
            CaptureEvent::Permission { state: PermissionState::NotDetermined },
            CaptureEvent::Permission { state: PermissionState::Granted },
            CaptureEvent::Started,
            CaptureEvent::Stored,
            CaptureEvent::Stored,
            CaptureEvent::Stored,
            CaptureEvent::Stored,
            CaptureEvent::Stored,
            CaptureEvent::Stored,
            CaptureEvent::Finished {
                capture_state: CaptureState::Finished,
                artifacts: vec![artifact(Some(AudioLane::Microphone), 1500, "m.wav"), artifact(None, 2500, "a.wav")],
            },
            CaptureEvent::Stored,
            CaptureEvent::Stored,
            CaptureEvent::Stored,
        ],
    );
    assert_eq!(flow.phase, CapturePhase::Done);
    let start = actions.iter().position(|a| matches!(a, CaptureAction::Start { .. })).unwrap();
    assert!(actions[..start].iter().all(|a| !is_store(a)));
    assert!(matches!(&actions[start], CaptureAction::Start { name, ordinal: 0 } if name == "s"));
    assert!(matches!(actions[3], CaptureAction::CheckPermission { lane: AudioLane::Microphone }));
    assert!(matches!(actions[4], CaptureAction::CheckPermission { lane: AudioLane::System }));
    assert!(matches!(actions[5], CaptureAction::RequestPermission { lane: AudioLane::System }));
    assert!(matches!(actions[start + 1], CaptureAction::CreateStoreDir));
    assert!(matches!(&actions[start + 2], CaptureAction::WriteMemo { name } if name == "s"));
    assert!(matches!(&actions[start + 3], CaptureAction::CreateSession { name } if name == "s"));
    assert!(matches!(&actions[start + 4], CaptureAction::SetTitle { title, .. } if title == "Standup"));
    assert!(matches!(actions[start + 5], CaptureAction::AppendSegment { ordinal: 0, offset_ms: 0, .. }));
    assert!(matches!(actions[start + 6], CaptureAction::WriteCurrentSession { .. }));
    assert!(matches!(actions[start + 7], CaptureAction::Finish { ordinal: 0, .. }));
    assert!(matches!(actions[start + 8], CaptureAction::SetSegmentDuration { duration_ms: 2500, .. }));
    assert!(matches!(&actions[start + 9], CaptureAction::RegisterArtifact { artifact_lane: Some(AudioLane::Microphone), registry_ordinal: 0, uri, .. } if uri == "m.wav"));
    assert!(matches!(&actions[start + 10], CaptureAction::RegisterArtifact { artifact_lane: None, registry_ordinal: 1, uri, .. } if uri == "a.wav"));
    assert!(matches!(actions[start + 11], CaptureAction::Complete));
}

#[test]
fn a_failed_start_stores_nothing() {
    let (flow, first) = CaptureFlow::begin(false, None, None);
    let (flow, actions) = run(
        flow,
        first,
        vec![
            CaptureEvent::Availability { available: true },
            CaptureEvent::NameChosen { name: "current".to_owned() },
            CaptureEvent::SegmentPosition { ordinal: 3, elapsed_ms: -5 },
            CaptureEvent::SupportedLanes { lanes: vec![AudioLane::Microphone] },
            CaptureEvent::Permission { state: PermissionState::Granted },
            CaptureEvent::ProviderFailed {
                error: CaptureError { code: CaptureErrorCode::OpenFailed, message: "no device".to_owned(), retry_advice: None },
            },
        ],
    );
    assert!(matches!(actions[1], CaptureAction::ReadCurrentSession));
    assert!(matches!(&actions[2], CaptureAction::ReadSegmentPosition { name } if name == "current"));
    assert!(matches!(&actions[5], CaptureAction::Start { ordinal: 3, .. }));
    assert!(actions.iter().all(|a| !is_store(a)));
    assert!(!flow.started);
    assert_eq!(flow.offset_ms, 0);
    let CaptureAction::Fail { failure } = &actions[6] else { panic!("expected a failure") };
    let error = failure.error();
    assert_eq!(error.code(), "capture_open_failed");
    assert_eq!(error.message(), "no device");
}

#[test]
fn refusals_end_the_flow_with_their_errors() {
    let (flow, _) = CaptureFlow::begin(false, None, None);
    let (_, unavailable) = capture_step(flow, CaptureEvent::Availability { available: false });
    let CaptureAction::Fail { failure } = unavailable else { panic!() };
    assert_eq!(failure, CaptureFailure::Unavailable);
    assert_eq!(failure.error().code(), "capture_unavailable");

    let (flow, _) = CaptureFlow::begin(false, Some("gone".to_owned()), None);
    let (flow, check) = capture_step(flow, CaptureEvent::Availability { available: true });
    assert!(matches!(&check, CaptureAction::CheckSessionExists { name } if name == "gone"));
    let (_, missing) = capture_step(flow, CaptureEvent::SessionExists { exists: false });
    let CaptureAction::Fail { failure } = missing else { panic!() };
    assert_eq!(failure.error().message(), "Session 'gone' not found. Run `margins ls` to choose one.");

    let denied = CaptureFailure::Permission { state: PermissionState::Denied }.error();
    assert_eq!(denied.code(), "capture_permission_denied");
    assert_eq!(CaptureFailure::NotFinished.error().message(), "capture provider did not finish the segment");
}

#[test]
fn an_unexpected_answer_changes_nothing() {
    let (flow, _) = CaptureFlow::begin(true, None, None);
    let (flow, action) = capture_step(flow, CaptureEvent::Stored);
    assert!(matches!(action, CaptureAction::Unexpected));
    assert_eq!(flow.phase, CapturePhase::Preflight);
}
