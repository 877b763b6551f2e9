use margins::cli::decide::{
    artifact_kind, artifact_ordinal, capture_lanes, capture_preflight, composition_unavailable,
    current_session, finish_outcome, meeting_owner, memo_uri, owner_lookup_needed,
    permission_needs_request, permission_outcome, probe_positions, process_preflight,
    segment_names, session_name_candidate, session_not_found, strip_project_arg,
    transcribe_preflight, ArgText, UnavailableCommand, VaultLabel,
};
use margins::cli::render::{
    artifact_list_lines, current_lines, import_lines, meeting_lines, process_lines,
    prune_lines, public_capabilities_json, recent_lines, renamed_line, session_table_lines,
    transcript_lines, ArtifactRow, ImportedMeeting, MeetingGroup, MeetingRow, ProcessReport,
    PrunedArtifact, SessionSummary, TranscriptDoc, DISTILL_HINT,
};
use margins::domain::audio::AudioLane;
use margins::domain::capture::{CaptureState, PermissionState};

fn arg(text: &str) -> ArgText {
    ArgText {
        text: text.to_owned(),
        exact: true,
    }
}

fn row(id: &str, saved: Option<&str>) -> MeetingRow {
    MeetingRow {
        id: id.to_owned(),
        started_at: "2026-08-10T10:00:00".to_owned(),
        segment_count: 2,
        title: "A <title> & \"quote\"".to_owned(),
        calendar_event: None,
        people: "Ann, Bo".to_owned(),
        memo_path: "/v/.margins/m.md".to_owned(),
        saved_note_path: saved.map(str::to_owned),
        transcript_path: String::new(),
        status: "ready".to_owned(),
        source: "capture".to_owned(),
    }
}

#[test]
fn project_selector_is_taken_out_in_both_spellings() {
    let a = strip_project_arg(&[arg("margins"), arg("--project"), arg("test"), arg("recent")]).unwrap();
    assert_eq!(a.project.as_deref(), Some("test"));
    assert_eq!(a.kept, vec![0, 3]);
    let b = strip_project_arg(&[arg("margins"), arg("recent"), arg("--project=test")]).unwrap();
    assert_eq!(b.project.as_deref(), Some("test"));
    assert_eq!(b.kept, vec![0, 1]);
    let inexact = ArgText {
        text: "--project=x".to_owned(),
        exact: false,
    };
    let c = strip_project_arg(&[arg("margins"), inexact]).unwrap();
    assert_eq!(c.project, None);
    assert_eq!(c.kept, vec![0, 1]);
    assert_eq!(
        strip_project_arg(&[arg("margins"), arg("--project")]).unwrap_err(),
        "--project requires a configured project id, name, or path"
    );
    assert_eq!(strip_project_arg(&[]).unwrap().kept, Vec::<usize>::new());
}

#[test]
fn meeting_rows_escape_titles_and_tag_vaults() {
    let lines = meeting_lines(&row("m1", None), Some("work"));
    assert_eq!(
        lines[0],
        "  <meeting id=\"m1\" vault=\"work\" started_at=\"2026-08-10T10:00:00\" segments=\"2\">"
    );
    assert_eq!(lines[1], "    <title>A &lt;title&gt; &amp; \"quote\"</title>");
    assert_eq!(lines[2], "    <calendar_event></calendar_event>");
    assert_eq!(lines[9], "  </meeting>");
    assert_eq!(lines.len(), 10);
}

#[test]
fn recent_listing_caps_each_vault_and_hints_once() {
    let saved = MeetingGroup {
        vault_id: None,
        meetings: (0..35).map(|k| row(&format!("m{k}"), Some("note.md"))).collect(),
    };
    let lines = recent_lines(&[saved.clone()]);
    assert_eq!(lines.len(), 2 + 30 * 10);
    assert_eq!(lines[0], "<margins_recent>");
    assert_eq!(lines[lines.len() - 1], "</margins_recent>");
    assert!(!lines.iter().any(|l| l.contains("<hint>")));

    let unsaved = MeetingGroup {
        vault_id: Some("b".to_owned()),
        meetings: vec![row("x", None)],
    };
    let lines = recent_lines(&[saved, unsaved]);
    assert_eq!(lines.len(), 2 + 31 * 10 + 1);
    assert!(lines[lines.len() - 2].starts_with("  <hint>To distill:"));
    assert!(DISTILL_HINT.ends_with("/margins <session>."));
    assert!(lines[lines.len() - 2].contains("&lt;session&gt;"));
}

#[test]
fn transcript_document_lists_metadata_then_the_escaped_body() {
    let doc = TranscriptDoc {
        session_name: "m&1".to_owned(),
        view: "aligned".to_owned(),
        started_at: "s".to_owned(),
        created_at: "c".to_owned(),
        title: "t".to_owned(),
        calendar_event: "e".to_owned(),
        people: vec!["Ann".to_owned(), "Bo".to_owned()],
        memo_path: "m".to_owned(),
        saved_note_path: None,
        source_path: "p".to_owned(),
        speaker_alias: Some("Guest".to_owned()),
        body: "a < b".to_owned(),
    };
    let lines = transcript_lines(&doc);
    assert_eq!(lines[0], "<margins_transcript meeting_id=\"m&amp;1\" view=\"aligned\">");
    assert_eq!(lines[6], "    <people>Ann, Bo</people>");
    assert_eq!(lines[10], "    <speaker_alias channel=\"other\">Guest</speaker_alias>");
    assert_eq!(lines[13], "a &lt; b");
    assert_eq!(lines.len(), 16);
}

#[test]
fn session_documents_are_exact() {
    assert_eq!(
        current_lines("s1", &Some("Plan".to_owned()), "now", 3, "/m.md"),
        vec![
            "<margins_current id=\"s1\">",
            "  <title>Plan</title>",
            "  <started_at>now</started_at>",
            "  <segments>3</segments>",
            "  <memo_path>/m.md</memo_path>",
            "</margins_current>",
        ]
    );
    assert_eq!(
        renamed_line("s1", "Q&A"),
        "<margins_renamed id=\"s1\"><title>Q&amp;A</title></margins_renamed>"
    );
    let table = session_table_lines(&[SessionSummary {
        name: "daily".to_owned(),
        start_time: "2026-01-01".to_owned(),
        segment_count: 12,
        notes_path: ".margins/daily.md".to_owned(),
    }]);
    assert_eq!(
        table[0],
        format!("{:<20} {:<24} {:<8} {}", "NAME", "STARTED", "SEGS", "NOTES")
    );
    assert_eq!(table[1], "-".repeat(72));
    assert_eq!(
        table[2],
        format!("{:<20} {:<24} {:<8} {}", "daily", "2026-01-01", 12, ".margins/daily.md")
    );
    assert_eq!(session_table_lines(&[]), vec!["No sessions found."]);
}

#[test]
fn artifact_and_prune_reports_are_exact() {
    let lines = artifact_list_lines(
        "m",
        &[ArtifactRow {
            kind: "audio".to_owned(),
            ordinal: -3,
            retention_class: "raw".to_owned(),
            expires_at: None,
            path: "/a.wav".to_owned(),
            exists: true,
        }],
    );
    assert_eq!(lines[1], "  <artifact kind=\"audio\" ordinal=\"-3\">");
    assert_eq!(lines[5], "    <exists>true</exists>");
    assert_eq!(lines.len(), 8);
    let prune = prune_lines(
        &[PrunedArtifact {
            session_id: "s".to_owned(),
            kind: "audio".to_owned(),
            ordinal: 10,
            deleted: false,
            registry_rows: 1,
            path: "/a.wav".to_owned(),
            expires_at: Some("2026".to_owned()),
        }],
        0,
        1,
    );
    assert_eq!(
        prune[1],
        "  <artifact session_id=\"s\" kind=\"audio\" ordinal=\"10\" deleted=\"false\" registry_rows=\"1\">"
    );
    assert_eq!(prune[5], "  <summary deleted=\"0\" rows=\"1\" />");
}

#[test]
fn process_and_import_reports_are_exact() {
    let lines = process_lines(&ProcessReport {
        session_name: "s".to_owned(),
        segment_count: 2,
        speakers: 1,
        transcript_entries: 9,
        transcript_json: "/t.json".to_owned(),
        aligned_path: "/a.md".to_owned(),
        asr_backend: "parakeet".to_owned(),
    });
    assert_eq!(lines[0], "<margins_process meeting_id=\"s\" status=\"ok\">");
    assert_eq!(lines[3], "  <transcript_entries>9</transcript_entries>");
    let import = import_lines(
        1,
        false,
        &[ImportedMeeting {
            session_id: "g".to_owned(),
            note_path: "n.md".to_owned(),
            transcript_path: None,
        }],
    );
    assert_eq!(
        import[0],
        "<margins_import_granola status=\"ok\" imported=\"1\" destination=\"margins\">"
    );
    assert!(import[1].starts_with("  <hint>No .margins/config.toml vault"));
    assert_eq!(import.len(), 6);
    let json = public_capabilities_json();
    assert!(json.contains("\"composition\":\"public-open-core\""));
    assert!(json.contains("\"schema\":1"));
}

#[test]
fn preflight_orders_input_errors_before_backends() {
    assert_eq!(
        transcribe_preflight(false, "x.wav", 2, false, false).unwrap_err().code(),
        "audio_not_found"
    );
    assert_eq!(
        transcribe_preflight(true, "x.wav", 2, false, false).unwrap_err().code(),
        "diarization_unavailable"
    );
    assert_eq!(
        transcribe_preflight(true, "x.wav", 1, false, false).unwrap_err().code(),
        "asr_unavailable"
    );
    assert!(process_preflight(1, true, false, false).is_ok());
    assert_eq!(
        process_preflight(1, false, false, false).unwrap_err().code(),
        "asr_unavailable"
    );
    assert_eq!(
        current_session(None, false).unwrap_err().message(),
        "No current session. Run `margins new` to start one."
    );
    assert_eq!(
        current_session(Some(String::new()), true).unwrap_err().code(),
        "session_not_found"
    );
    assert_eq!(current_session(Some("s".to_owned()), true).unwrap(), "s");
    assert_eq!(composition_unavailable(UnavailableCommand::Recall).code(), "composition_unavailable");
}

#[test]
fn capture_decisions_follow_provider_answers() {
    assert_eq!(capture_preflight(false).unwrap_err().code(), "capture_unavailable");
    assert!(permission_needs_request(PermissionState::NotDetermined));
    assert!(permission_outcome(PermissionState::Granted).is_ok());
    assert_eq!(
        permission_outcome(PermissionState::Restricted).unwrap_err().code(),
        "capture_permission_denied"
    );
    assert_eq!(
        permission_outcome(PermissionState::Unknown).unwrap_err().code(),
        "capture_open_failed"
    );
    assert_eq!(capture_lanes(&[]), vec![AudioLane::Microphone, AudioLane::System]);
    assert_eq!(capture_lanes(&[AudioLane::System]), vec![AudioLane::System]);
    let names = segment_names("2026-01-01-10-00-00", 3);
    assert_eq!(names.segment_id, "2026-01-01-10-00-00-segment-3");
    assert_eq!(names.start_operation_id, "2026-01-01-10-00-00-segment-3-start");
    assert_eq!(names.finish_operation_id, "2026-01-01-10-00-00-segment-3-finish");
    assert_eq!(names.audio_uri, ".margins/2026-01-01-10-00-00_seg3.wav");
    assert_eq!(memo_uri("s"), ".margins/s.md");
    assert_eq!(
        session_not_found("old").message(),
        "Session 'old' not found. Run `margins ls` to choose one."
    );
    assert!(finish_outcome(CaptureState::Finished).is_ok());
    assert!(finish_outcome(CaptureState::Failed).is_err());
    assert_eq!(artifact_kind(Some(AudioLane::Microphone)), "audio_microphone");
    assert_eq!(artifact_kind(None), "audio");
    assert_eq!(artifact_ordinal(2, 1), 21);
    assert_eq!(artifact_ordinal(i64::MAX / 5, 0), i64::MAX);
}

#[test]
fn meeting_owner_is_unique_or_reported() {
    assert!(!owner_lookup_needed(false, "latest"));
    assert!(!owner_lookup_needed(true, "m1"));
    assert!(owner_lookup_needed(false, "m1"));
    let roots = vec!["/a".to_owned(), "/b".to_owned(), "/a".to_owned(), "/c".to_owned()];
    assert_eq!(probe_positions(&roots, &[true, false, true, true]), vec![0, 3]);
    assert_eq!(meeting_owner("m", &[]).unwrap(), None);
    let label = |id: &str, root: &str| VaultLabel {
        id: id.to_owned(),
        root: root.to_owned(),
    };
    assert_eq!(meeting_owner("m", &[label("a", "/a")]).unwrap(), Some(0));
    let error = meeting_owner("m", &[label("a", "/a"), label("c", "/c")]).unwrap_err();
    assert_eq!(error.code(), "ambiguous_meeting");
    assert_eq!(
        error.message(),
        "Meeting 'm' exists in multiple Margins vaults: a (/a), c (/c). Pass --project <id-or-path> to choose one."
    );
    assert_eq!(session_name_candidate("base", 1), "base");
    assert_eq!(session_name_candidate("base", 2), "base-2");
}
