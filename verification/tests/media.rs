use margins::media::channels::{extract_channel, frame_count, ChannelError};
use margins::domain::transcript::{DiarizationErrorCode, TranscriptErrorCode};
use margins::media::providers::{
    clamp_speaker_count, FluidCoreMlModelVersion, missing_model_files, AsrModelKind, PublicDiarizationBackend,
    UnavailableAsr, UnavailableDiarization,
};
use margins::media::diarization::{assign_speakers_to_words, SpeakerSegment};
use margins::media::streaming::{
    aligned_streaming_target_ms, checkpoint_interval_elapsed, encoder_frame_to_ms,
    is_encoder_frame_aligned_ms, ms_to_encoder_frame_floor, next_decode_end_for,
    offline_chunk_samples, offline_chunk_stride_samples, offline_overlap_frames,
    reconcile_streaming_words, samples_to_ms, CoreMlStreamingConfig, MAX_MODEL_SAMPLES,
    SAMPLES_PER_ENCODER_FRAME, SAMPLE_RATE,
};
use margins::media::timeline::{scale_frames, target_frame};
use margins::media::transcript::{
    merge_and_dedupe_entries, merge_word_entries_to_phrases, words_to_transcript_entries,
    TranscriptWordEntry, WordTiming,
};

fn word(start_ms: u64, end_ms: u64, text: &str) -> WordTiming {
    WordTiming {
        start_ms,
        end_ms,
        text: text.to_string(),
    }
}

#[test]
fn target_frame_uses_floor_integer_math_at_boundaries() {
    assert_eq!(target_frame(999_999_999, 48_000).unwrap(), 47_999);
    assert_eq!(target_frame(1_000_000_000, 48_000).unwrap(), 48_000);
    assert_eq!(target_frame(1, 44_100).unwrap(), 0);
}

#[test]
fn frame_scaling_is_checked_and_floor_rounded() {
    assert_eq!(scale_frames(44_100, 44_100, 48_000).unwrap(), 48_000);
    assert_eq!(scale_frames(1, 48_000, 44_100).unwrap(), 0);
    assert!(scale_frames(1, 0, 48_000).is_err());
}

#[test]
fn frame_math_rejects_unrepresentable_results() {
    assert!(target_frame(u64::MAX, u32::MAX).is_err());
    assert!(scale_frames(u64::MAX, 1, u32::MAX).is_err());
}

#[test]
fn assigns_speakers_by_word_midpoint() {
    let words = vec![
        WordTiming {
            start_ms: 100,
            end_ms: 200,
            text: "hello".into(),
        },
        WordTiming {
            start_ms: 900,
            end_ms: 1000,
            text: "there".into(),
        },
    ];
    let segments = vec![
        SpeakerSegment {
            start_ms: 0,
            end_ms: 500,
            speaker: "SPEAKER_00".into(),
        },
        SpeakerSegment {
            start_ms: 800,
            end_ms: 1200,
            speaker: "SPEAKER_01".into(),
        },
    ];
    let assigned = assign_speakers_to_words(&words, &segments);
    assert_eq!(assigned[0].speaker, "SPEAKER_00");
    assert_eq!(assigned[0].channel, 0);
    assert_eq!(assigned[1].speaker, "SPEAKER_01");
    assert_eq!(assigned[1].channel, 1);
}

#[test]
fn offsets_words_into_entries() {
    let entries = words_to_transcript_entries(
        &[WordTiming {
            start_ms: 10,
            end_ms: 25,
            text: "hello".into(),
        }],
        1,
        100,
    );
    assert_eq!(entries[0].channel, 1);
    assert_eq!(entries[0].start_ms, 110);
    assert_eq!(entries[0].end_ms, 125);
    assert_eq!(entries[0].text, " hello");
}

#[test]
fn merges_word_entries_into_phrases() {
    let entries = vec![
        TranscriptWordEntry {
            channel: 0,
            start_ms: 0,
            end_ms: 100,
            text: " hello".into(),
        },
        TranscriptWordEntry {
            channel: 0,
            start_ms: 250,
            end_ms: 400,
            text: " world".into(),
        },
        TranscriptWordEntry {
            channel: 1,
            start_ms: 300,
            end_ms: 500,
            text: " other".into(),
        },
    ];
    let phrases = merge_word_entries_to_phrases(entries, 500);
    assert_eq!(phrases.len(), 2);
    assert_eq!(phrases[0].text, " hello world");
    assert_eq!(phrases[1].channel, 1);
}

#[test]
fn merge_and_dedupe_collapses_filler_twice() {
    let entries = vec![
        TranscriptWordEntry {
            channel: 0,
            start_ms: 0,
            end_ms: 100,
            text: " yeah".into(),
        },
        TranscriptWordEntry {
            channel: 0,
            start_ms: 120,
            end_ms: 220,
            text: " yeah,".into(),
        },
    ];

    let phrases = merge_and_dedupe_entries(entries, 2_000);
    assert_eq!(phrases.len(), 1);
    assert_eq!(phrases[0].text, " yeah");
    assert_eq!(phrases[0].end_ms, 220);
}

#[test]
fn merge_and_dedupe_preserves_non_filler_twice() {
    let entries = vec![
        TranscriptWordEntry {
            channel: 0,
            start_ms: 0,
            end_ms: 100,
            text: " very".into(),
        },
        TranscriptWordEntry {
            channel: 0,
            start_ms: 120,
            end_ms: 220,
            text: " very".into(),
        },
    ];

    let phrases = merge_and_dedupe_entries(entries, 2_000);
    assert_eq!(phrases.len(), 1);
    assert_eq!(phrases[0].text, " very very");
    assert_eq!(phrases[0].end_ms, 220);
}

#[test]
fn merge_and_dedupe_collapses_non_filler_three_times() {
    let entries = vec![
        TranscriptWordEntry {
            channel: 0,
            start_ms: 0,
            end_ms: 100,
            text: " very".into(),
        },
        TranscriptWordEntry {
            channel: 0,
            start_ms: 120,
            end_ms: 220,
            text: " very".into(),
        },
        TranscriptWordEntry {
            channel: 0,
            start_ms: 240,
            end_ms: 340,
            text: " very".into(),
        },
    ];

    let phrases = merge_and_dedupe_entries(entries, 2_000);
    assert_eq!(phrases.len(), 1);
    assert_eq!(phrases[0].text, " very");
    assert_eq!(phrases[0].end_ms, 340);
}

#[test]
fn merge_and_dedupe_does_not_collapse_cross_channel() {
    let entries = vec![
        TranscriptWordEntry {
            channel: 0,
            start_ms: 0,
            end_ms: 100,
            text: " yeah".into(),
        },
        TranscriptWordEntry {
            channel: 1,
            start_ms: 120,
            end_ms: 220,
            text: " yeah".into(),
        },
        TranscriptWordEntry {
            channel: 0,
            start_ms: 240,
            end_ms: 340,
            text: " yeah".into(),
        },
    ];

    let phrases = merge_and_dedupe_entries(entries, 2_000);
    assert_eq!(phrases.len(), 3);
    assert_eq!(phrases[0].channel, 0);
    assert_eq!(phrases[1].channel, 1);
    assert_eq!(phrases[2].channel, 0);
}

#[test]
fn checkpoint_interval_caps_internal_progressive_steps() {
    let config = CoreMlStreamingConfig {
        step_ms: 15_000,
        checkpoint_interval_ms: 5_000,
        ..Default::default()
    }
    .normalized();

    let mut decoded = 0;
    let mut ends = Vec::new();
    while decoded < aligned_streaming_target_ms(15_000) {
        decoded = next_decode_end_for(decoded, 15_000, &config);
        ends.push(decoded);
    }

    assert_eq!(ends, vec![4_960, 9_920, 14_880, 14_960]);
    assert!(ends.iter().all(|end| is_encoder_frame_aligned_ms(*end)));
}

#[test]
fn streaming_step_boundaries_floor_to_encoder_frames() {
    let config = CoreMlStreamingConfig::default().normalized();

    assert_eq!(aligned_streaming_target_ms(1_000), 960);
    assert_eq!(next_decode_end_for(0, 1_000, &config), 960);
    assert_eq!(ms_to_encoder_frame_floor(1_000), 12);
    assert_eq!(encoder_frame_to_ms(ms_to_encoder_frame_floor(1_000)), 960);

    let mut decoded = 0;
    let mut ends = Vec::new();
    while decoded < aligned_streaming_target_ms(5_000) {
        decoded = next_decode_end_for(decoded, 5_000, &config);
        ends.push(decoded);
    }
    assert_eq!(ends.last().copied(), Some(4_960));
    assert!(ends.iter().all(|end| is_encoder_frame_aligned_ms(*end)));
    assert_eq!(ms_to_encoder_frame_floor(5_000), 62);
    assert_eq!(encoder_frame_to_ms(ms_to_encoder_frame_floor(5_000)), 4_960);
}

#[test]
fn offline_long_form_stride_is_frame_aligned_below_model_window() {
    let chunk = offline_chunk_samples();
    let stride = offline_chunk_stride_samples();
    assert_eq!(chunk % SAMPLES_PER_ENCODER_FRAME, 0);
    assert_eq!(stride % SAMPLES_PER_ENCODER_FRAME, 0);
    assert!(chunk < MAX_MODEL_SAMPLES);
    assert!(stride < MAX_MODEL_SAMPLES);
    assert_eq!(chunk, 238_080);
    assert_eq!(chunk / SAMPLES_PER_ENCODER_FRAME, 186);
    assert_eq!(stride, 206_080);
    assert_eq!(stride / SAMPLES_PER_ENCODER_FRAME, 161);
    assert_eq!(offline_overlap_frames(), 25);
    assert_eq!(samples_to_ms(chunk as u64, SAMPLE_RATE), 14_880);
    assert_eq!(samples_to_ms(stride as u64, SAMPLE_RATE), 12_880);
}

#[test]
fn checkpoint_interval_uses_frame_counts_not_wall_clock_drift() {
    let interval_ms = 5_000;
    let frame_4960 = ms_to_encoder_frame_floor(4_960);
    let frame_5000 = ms_to_encoder_frame_floor(5_000);
    assert_eq!(frame_4960, 62);
    assert_eq!(frame_5000, 62);
    assert!(checkpoint_interval_elapsed(0, frame_4960, interval_ms));
    assert!(checkpoint_interval_elapsed(0, frame_5000, interval_ms));
    assert!(!checkpoint_interval_elapsed(0, 61, interval_ms));
}

#[test]
fn unaligned_terminal_tail_is_not_checkpoint_aligned() {
    assert_eq!(aligned_streaming_target_ms(3_000), 2_960);
    assert!(!is_encoder_frame_aligned_ms(3_000));
    assert!(is_encoder_frame_aligned_ms(2_960));
}

#[test]
fn reconcile_is_append_only_and_replaces_hypothesis_conservatively() {
    let committed = vec![word(0, 300, "yes"), word(800, 1_000, "yes")];
    let decoded = vec![
        word(20, 320, "YES,"),
        word(1_150, 1_300, "yes"),
        word(3_700, 3_900, "tail"),
    ];

    let out = reconcile_streaming_words(&committed, 1_000, decoded, 4_000, 1_500);

    assert_eq!(out.committed[..2], committed[..]);
    assert_eq!(out.committed[2], word(1_150, 1_300, "yes"));
    assert_eq!(out.hypothesis, vec![word(3_700, 3_900, "tail")]);
    assert_eq!(out.committed_until_ms, 1_300);
}

fn names(list: &[&str]) -> Vec<String> {
    list.iter().map(|name| (*name).to_owned()).collect()
}

#[test]
fn unavailable_adapters_are_model_free_public_ports() {
    let asr_error = UnavailableAsr.transcribe_error();
    assert_eq!(asr_error.code, TranscriptErrorCode::Unavailable);
    assert_eq!(asr_error.message, "ASR is unavailable in this build");
    assert!(!asr_error.retryable);

    let diarization_error = UnavailableDiarization.diarize_error();
    assert_eq!(diarization_error.code, DiarizationErrorCode::Unavailable);
    assert_eq!(
        diarization_error.message,
        "diarization is unavailable in this build"
    );
    assert!(!diarization_error.retryable);
}

#[test]
fn validates_expected_model_files() {
    let missing = missing_model_files(&[], AsrModelKind::Tdt);
    assert!(missing.contains(&"encoder-model.int8.onnx".to_string()));
    assert!(missing.contains(&"decoder_joint-model.int8.onnx".to_string()));
    assert!(missing.contains(&"vocab.txt".to_string()));
}

#[test]
fn accepts_quantized_tdt_model_files() {
    let files = names(&[
        "encoder-model.int8.onnx",
        "decoder_joint-model.int8.onnx",
        "vocab.txt",
    ]);
    assert!(missing_model_files(&files, AsrModelKind::Tdt).is_empty());
}

#[test]
fn accepts_full_tdt_model_files() {
    let files = names(&[
        "encoder-model.onnx",
        "encoder-model.onnx.data",
        "decoder_joint-model.onnx",
        "vocab.txt",
    ]);
    assert!(missing_model_files(&files, AsrModelKind::Tdt).is_empty());
}

#[test]
fn full_encoder_without_its_data_file_is_missing() {
    let files = names(&["encoder-model.onnx", "decoder_joint-model.onnx", "vocab.txt"]);
    assert_eq!(
        missing_model_files(&files, AsrModelKind::Tdt),
        vec!["encoder-model.int8.onnx".to_owned()]
    );
    assert_eq!(
        missing_model_files(&names(&["model.onnx"]), AsrModelKind::Ctc),
        vec!["model.onnx_data".to_owned(), "tokenizer.json".to_owned()]
    );
}

#[test]
fn public_diarization_without_a_provider_is_unavailable() {
    let backend = PublicDiarizationBackend { max_speakers: None };
    assert!(!backend.is_available());
    let error = backend.diarize_error();
    assert_eq!(error.code, DiarizationErrorCode::Unavailable);
    assert_eq!(
        error.message,
        "Rust diarization is not enabled; build with feature `polyvoice-diarization`"
    );
    assert_eq!(backend.speaker_limit(Some(3)), Some(3));
    let capped = PublicDiarizationBackend { max_speakers: Some(2) };
    assert_eq!(capped.speaker_limit(Some(3)), Some(2));
    assert_eq!(clamp_speaker_count(Some(0)), Some(1));
    assert_eq!(clamp_speaker_count(Some(300)), Some(255));
    assert_eq!(clamp_speaker_count(Some(4)), Some(4));
    assert_eq!(clamp_speaker_count(None), None);
}

#[test]
fn coreml_version_prefers_the_setting_then_the_directory_name() {
    assert_eq!(FluidCoreMlModelVersion::from_setting_or_dir(Some("V3"), "/models/any"), FluidCoreMlModelVersion::V3);
    assert_eq!(FluidCoreMlModelVersion::from_setting_or_dir(Some("2"), "/models/parakeet-v3"), FluidCoreMlModelVersion::V2);
    assert_eq!(FluidCoreMlModelVersion::from_setting_or_dir(Some("v4"), "/models/parakeet-v3"), FluidCoreMlModelVersion::V3);
    assert_eq!(FluidCoreMlModelVersion::from_setting_or_dir(None, "/models/parakeet-v2"), FluidCoreMlModelVersion::V2);
    assert_eq!(FluidCoreMlModelVersion::V2.joint_candidates(), vec!["JointDecision.mlmodelc"]);
    assert_eq!(
        FluidCoreMlModelVersion::V3.joint_candidates(),
        vec!["JointDecisionv3.mlmodelc", "JointDecision.mlmodelc"]
    );
}

#[test]
fn extracts_channels_from_interleaved_frames() {
    let interleaved: Vec<f32> = [1.0f32, 0.0].repeat(48_000);
    assert_eq!(frame_count(interleaved.len(), 2), 48_000);
    let ch0 = extract_channel(&interleaved, 2, 0).unwrap();
    let ch1 = extract_channel(&interleaved, 2, 1).unwrap();
    assert_eq!(ch0.len(), 48_000);
    assert!(ch0.iter().all(|s| *s > 0.99));
    assert!(ch1.iter().all(|s| s.abs() < 0.001));
    assert_eq!(extract_channel(&[1, 2, 3, 4, 5], 2, 0).unwrap(), vec![1, 3, 5]);
    assert_eq!(extract_channel(&[1, 2, 3, 4, 5], 2, 1).unwrap(), vec![2, 4]);
    assert_eq!(extract_channel::<i16>(&[], 1, 0).unwrap(), Vec::<i16>::new());
    let zero = extract_channel(&[1, 2], 0, 0).unwrap_err();
    assert_eq!(zero, ChannelError::ZeroChannels);
    assert_eq!(zero.message(), "audio has zero channels");
    let missing = extract_channel(&[1, 2], 2, 2).unwrap_err();
    assert_eq!(
        missing.message(),
        "requested channel 2, but audio has 2 channels"
    );
    assert_eq!(frame_count(7, 0), 0);
}

fn entry(channel: u32, start_ms: u64, end_ms: u64, text: &str) -> TranscriptWordEntry {
    TranscriptWordEntry { channel, start_ms, end_ms, text: text.into() }
}

#[test]
fn phrases_come_out_in_start_then_channel_order_and_apart() {
    let entries = vec![
        entry(1, 300, 400, " b"),
        entry(0, 300, 350, " a"),
        entry(0, 0, 100, " first"),
        entry(0, 2_000, 2_100, " late"),
    ];
    let phrases = merge_word_entries_to_phrases(entries, 500);
    assert_eq!(
        phrases,
        vec![
            entry(0, 0, 350, " first a"),
            entry(1, 300, 400, " b"),
            entry(0, 2_000, 2_100, " late"),
        ]
    );
}

#[test]
fn dedupe_collapses_a_long_run_to_one_word() {
    let entries = vec![
        entry(0, 0, 100, " go"),
        entry(0, 120, 220, " Go."),
        entry(0, 240, 340, " go"),
        entry(0, 360, 460, " go!"),
        entry(0, 480, 580, " stop"),
    ];
    let phrases = merge_and_dedupe_entries(entries, 0);
    assert_eq!(phrases, vec![entry(0, 0, 460, " go"), entry(0, 480, 580, " stop")]);
}

#[test]
fn next_decode_end_stops_at_checkpoint_frames() {
    let config = CoreMlStreamingConfig {
        step_ms: 5_000,
        overlap_ms: 0,
        stability_lag_ms: 0,
        checkpoint_interval_ms: 1_000,
    };
    assert_eq!(next_decode_end_for(0, 10_000, &config), 960);
    assert_eq!(next_decode_end_for(960, 10_000, &config), 1_920);
    assert_eq!(next_decode_end_for(960, 1_200, &config), 1_200);
    assert_eq!(next_decode_end_for(1_200, 1_200, &config), 1_200);
}

#[test]
fn entries_with_equal_start_and_channel_keep_their_order() {
    let entries = vec![entry(0, 100, 200, " x"), entry(0, 0, 50, " y"), entry(0, 100, 150, " z")];
    let phrases = merge_word_entries_to_phrases(entries, 1_000);
    assert_eq!(phrases, vec![entry(0, 0, 200, " y x z")]);
}
