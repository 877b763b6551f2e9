use margins::cli::error::{CliError, ErrorCause, EX_UNAVAILABLE};
use margins::cli::output::{
    error_line, init_line, recall_unavailable_line, setup_handoff_lines, xml_char,
    xml_escape_attr, xml_escape_text,
};
use margins::cli::paths::{absolute_from, current_pointer_path, join_path};
use margins::domain::capture::{CaptureError, CaptureErrorCode};
use margins::domain::transcript::{
    DiarizationError, DiarizationErrorCode, TranscriptError, TranscriptErrorCode,
};

#[test]
fn xml_escaping_covers_markup_quotes_and_control_characters() {
    assert_eq!(
        xml_escape_text("A <title> & \"quote\""),
        "A &lt;title&gt; &amp; \"quote\""
    );
    assert_eq!(
        xml_escape_attr("a \"b\" 'c' <d>"),
        "a &quot;b&quot; &apos;c&apos; &lt;d&gt;"
    );
    assert_eq!(xml_escape_text("bell\u{7}\ttab\nline"), "bell\ttab\nline");
    assert_eq!(xml_escape_text("c1\u{85}end"), "c1end");
    assert_eq!(xml_char('\u{1f}'), None);
    assert_eq!(xml_char('\r'), Some('\r'));
    assert_eq!(xml_char('é'), Some('é'));
}

#[test]
fn error_lines_escape_the_message() {
    let error = CliError::new("bad_input", "a < b".to_owned());
    assert_eq!(
        error_line(&error),
        "<margins_error code=\"bad_input\">a &lt; b</margins_error>"
    );
    assert_eq!(error.exit_code(), 1);
    let unavailable = CliError::diarization_unavailable();
    assert_eq!(
        error_line(&unavailable),
        "<margins_error code=\"diarization_unavailable\">diarization is unavailable in this build</margins_error>"
    );
    assert_eq!(unavailable.exit_code(), EX_UNAVAILABLE);
    assert_eq!(CliError::usage("try --help".to_owned()).exit_code(), 2);
}

#[test]
fn init_and_setup_lines_are_exact() {
    assert_eq!(
        init_line("/tmp/a&b", "created", None),
        "<margins_init path=\"/tmp/a&amp;b\" status=\"created\" />"
    );
    assert_eq!(
        init_line("/v", "existing", Some("/v/.margins/config.toml")),
        "<margins_init path=\"/v\" status=\"existing\" config_path=\"/v/.margins/config.toml\" />"
    );
    let (first, second) = setup_handoff_lines("/work/notes");
    assert_eq!(first, "Paste into your agent:");
    assert_eq!(
        second,
        "Set up Margins in /work/notes. Run margins guide workspace-setup and follow it end to end."
    );
    assert_eq!(
        recall_unavailable_line(),
        "<margins_recall status=\"unavailable\" />"
    );
}

#[test]
fn capture_errors_map_to_stable_cli_codes() {
    let unavailable = CliError::capture(CaptureError::unavailable("ignored".to_owned()));
    assert_eq!(unavailable.code(), "capture_unavailable");
    assert_eq!(unavailable.message(), "capture is unavailable in this build");
    assert_eq!(unavailable.exit_code(), EX_UNAVAILABLE);

    let denied = CliError::capture(CaptureError {
        code: CaptureErrorCode::PermissionDenied,
        message: "denied".to_owned(),
        retry_advice: None,
    });
    assert_eq!(denied.code(), "capture_permission_denied");
    assert_eq!(denied.message(), "denied");
    assert_eq!(denied.exit_code(), 1);

    let busy = CliError::capture(CaptureError {
        code: CaptureErrorCode::Stalled,
        message: "busy".to_owned(),
        retry_advice: None,
    });
    assert_eq!(busy.code(), "capture_open_failed");
}

#[test]
fn error_chains_are_decided_by_their_first_typed_cause() {
    let plain = CliError::from_causes(&[ErrorCause::Other], "boom".to_owned());
    assert_eq!(plain.code(), "command_failed");
    assert_eq!(plain.message(), "boom");

    let asr = CliError::from_causes(
        &[
            ErrorCause::Other,
            ErrorCause::Transcript(TranscriptError {
                code: TranscriptErrorCode::Unavailable,
                message: "x".to_owned(),
                retryable: false,
            }),
            ErrorCause::Diarization(DiarizationError {
                code: DiarizationErrorCode::Unavailable,
                message: "y".to_owned(),
                retryable: false,
            }),
        ],
        "outer".to_owned(),
    );
    assert_eq!(asr.code(), "asr_unavailable");
    assert_eq!(asr.message(), "ASR is unavailable in this build");
    assert_eq!(asr.exit_code(), EX_UNAVAILABLE);

    let failed = CliError::from_causes(
        &[ErrorCause::Diarization(DiarizationError {
            code: DiarizationErrorCode::InferenceFailed,
            message: "model crashed".to_owned(),
            retryable: false,
        })],
        "outer".to_owned(),
    );
    assert_eq!(failed.code(), "diarization_failed");
    assert_eq!(failed.message(), "model crashed");
    assert_eq!(failed.exit_code(), 1);
}

#[test]
fn paths_join_like_unix_paths() {
    assert_eq!(join_path("/a", "b"), "/a/b");
    assert_eq!(join_path("/a/", "b"), "/a/b");
    assert_eq!(join_path("/a", "/b"), "/b");
    assert_eq!(join_path("", "b"), "b");
    assert_eq!(absolute_from("/cwd", "rel/x.wav"), "/cwd/rel/x.wav");
    assert_eq!(current_pointer_path("/v/.margins"), "/v/.margins/current");
}

#[test]
fn escaped_values_cannot_break_out_of_markup() {
    let hostile = "\"><script a='1'>\u{0}\u{1b}&</script>";
    let text = xml_escape_text(hostile);
    assert!(!text.contains('<') && !text.contains('>'));
    assert!(!text.chars().any(|c| c.is_control() && c != '\n' && c != '\r' && c != '\t'));
    let attr = xml_escape_attr(hostile);
    assert!(!attr.contains('"') && !attr.contains('\'') && !attr.contains('<'));
    assert_eq!(
        attr,
        "&quot;&gt;&lt;script a=&apos;1&apos;&gt;&amp;&lt;/script&gt;"
    );
}
