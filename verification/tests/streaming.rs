use margins::media::audio_buffer::RollingAudioBuffer;
use margins::media::live::{CoreMlAsrSession, StreamingSessionError, StreamingTranscriptUpdate};
use margins::media::checkpoints::{
    prune_unusable_checkpoints, select_decode_plan, CheckpointMark, DecodePlanKind,
};
use margins::media::streaming::{
    encoder_frame_to_ms, max_model_window_ms, ms_to_encoder_frame, CoreMlStreamingConfig,
    SAMPLE_RATE,
};
use margins::media::token_words::{prune_token_windows_before, token_frame_limit_value, token_windows_to_word_timings, MAX_TOKEN_FRAME};
use margins::media::tokens::{
    contiguous_token_matches, lcs_token_matches, merge_token_windows, TokenWindow,
};
use margins::media::transcript::WordTiming;

fn checkpoint_times(times_ms: &[u64]) -> Vec<CheckpointMark> {
    times_ms
        .iter()
        .copied()
        .map(|time_ms| CheckpointMark {
            time_ms,
            frame_index: ms_to_encoder_frame(time_ms),
            committed_word_len: 0,
            committed_until_ms: 0,
            decoded_until_ms: time_ms,
        })
        .collect()
}

fn tw(token: usize, timestamp: usize) -> TokenWindow<f32> {
    TokenWindow {
        token,
        timestamp,
        confidence: 0.9,
        duration: 1,
    }
}

fn token_ids(windows: &[TokenWindow<f32>]) -> Vec<usize> {
    windows.iter().map(|window| window.token).collect()
}

fn overlap_config(overlap_ms: u64) -> CoreMlStreamingConfig {
    CoreMlStreamingConfig {
        overlap_ms,
        ..Default::default()
    }
}

#[test]
fn checkpoint_selection_restores_before_overlap_and_avoids_one_second_context() {
    let checkpoints = checkpoint_times(&[0, 5_000, 10_000, 15_000]);
    let config = overlap_config(2_000);

    let plan = select_decode_plan(15_000, &checkpoints, &config, 16_000);

    assert_eq!(plan.kind, DecodePlanKind::OverlapReplay);
    assert_eq!(plan.start_ms, 10_000);
    let checkpoint = &checkpoints[plan.restore_checkpoint.unwrap()];
    let desired_overlap_start = 13_000;
    assert!(checkpoint.time_ms <= desired_overlap_start);
    assert!(16_000 - checkpoint.time_ms <= max_model_window_ms());
    assert!(16_000 - plan.start_ms > 1_000);
    assert_eq!(
        checkpoint.frame_index,
        ms_to_encoder_frame(checkpoint.time_ms)
    );
}

#[test]
fn checkpoint_selection_never_uses_checkpoint_after_overlap_start() {
    let checkpoints = checkpoint_times(&[0, 15_000]);
    let config = overlap_config(2_000);

    let plan = select_decode_plan(15_000, &checkpoints, &config, 16_000);

    assert_eq!(plan.kind, DecodePlanKind::ConservativeNoOverlap);
    assert_eq!(plan.start_ms, 15_000);
    assert!(plan.restore_checkpoint.is_none());
}

#[test]
fn zero_overlap_streaming_config_uses_strict_continuation_without_overlap_replay() {
    let config = overlap_config(0).normalized();
    assert_eq!(config.overlap_ms, 0);

    let checkpoints = checkpoint_times(&[0, 4_960]);
    let plan = select_decode_plan(4_960, &checkpoints, &config, 5_920);
    assert_eq!(plan.kind, DecodePlanKind::ConservativeNoOverlap);
    assert_eq!(plan.start_ms, 4_960);
    assert!(plan.restore_checkpoint.is_none());
}

#[test]
fn first_decode_starts_at_zero() {
    let plan = select_decode_plan(0, &checkpoint_times(&[0]), &overlap_config(2_000), 960);
    assert_eq!(plan.kind, DecodePlanKind::Initial);
    assert_eq!(plan.start_ms, 0);
    assert!(plan.restore_checkpoint.is_none());
}

#[test]
fn checkpoint_pruning_drops_entries_outside_model_window() {
    let mut checkpoints = checkpoint_times(&[0, 5_000, 10_000, 15_000]);

    prune_unusable_checkpoints(&mut checkpoints, 20_000, 12_000);

    let retained: Vec<u64> = checkpoints
        .iter()
        .map(|checkpoint| checkpoint.time_ms)
        .collect();
    assert_eq!(retained, vec![10_000, 15_000]);
}

#[test]
fn checkpoint_pruning_keeps_at_least_one_checkpoint() {
    let mut checkpoints = checkpoint_times(&[0]);

    prune_unusable_checkpoints(&mut checkpoints, 60_000, 12_000);

    assert_eq!(checkpoints.len(), 1);
    assert_eq!(checkpoints[0].time_ms, 0);
}

#[test]
fn rolling_audio_buffer_append_slice_and_trim() {
    let mut buffer = RollingAudioBuffer::new(SAMPLE_RATE);
    buffer.append(&[1.0f32; 16_000]);
    buffer.append(&[2.0f32; 8_000]);

    assert_eq!(buffer.duration_ms(), 1_500);
    assert_eq!(buffer.end_ms(), 1_500);
    assert_eq!(buffer.slice(250, 750).len(), 8_000);
    assert!(buffer.slice(250, 750).iter().all(|sample| *sample == 1.0));
    let crossing = buffer.slice(900, 1_100);
    assert_eq!(crossing.len(), 3_200);
    assert!(crossing[..1_600].iter().all(|sample| *sample == 1.0));
    assert!(crossing[1_600..].iter().all(|sample| *sample == 2.0));

    buffer.trim_before(1_000);
    assert_eq!(buffer.base_sample_index(), 16_000);
    assert_eq!(buffer.duration_ms(), 500);
    assert_eq!(buffer.slice(0, 1_500).len(), 8_000);
}

#[test]
fn rolling_audio_trim_floor_preserves_oldest_retained_checkpoint_audio() {
    let mut buffer = RollingAudioBuffer::new(SAMPLE_RATE);
    buffer.append(&vec![1.0f32; SAMPLE_RATE as usize * 20]);
    let mut checkpoints = checkpoint_times(&[0, 5_000, 10_000, 15_000]);

    prune_unusable_checkpoints(&mut checkpoints, 20_000, 12_000);
    buffer.trim_before(checkpoints.first().unwrap().time_ms);

    assert_eq!(buffer.base_sample_index(), 160_000);
    assert_eq!(buffer.end_ms(), 20_000);
    assert_eq!(buffer.slice(10_000, 12_000).len(), 32_000);
    assert!(buffer.slice(9_000, 10_000).is_empty());
}

#[test]
fn rolling_audio_buffer_clone_and_empty_slices() {
    let mut buffer = RollingAudioBuffer::new(8_000);
    assert!(buffer.slice(0, 100).is_empty());
    buffer.append(&[7i16; 800]);
    let copy = buffer.clone();
    assert_eq!(copy.end_ms(), 100);
    assert!(copy.slice(50, 50).is_empty());
    assert!(copy.slice(60, 40).is_empty());
    assert_eq!(copy.slice(90, 200), vec![7i16; 80]);
    buffer.trim_before(0);
    assert_eq!(buffer.base_sample_index(), 0);
    buffer.trim_before(10_000);
    assert_eq!(buffer.base_sample_index(), 800);
    assert_eq!(buffer.duration_ms(), 0);
    assert_eq!(buffer.end_ms(), 100);
}

#[test]
fn token_window_merge_dedupes_shifted_overlap() {
    let left = vec![tw(1, 100), tw(2, 110), tw(3, 120), tw(4, 130)];
    let right = vec![tw(2, 111), tw(3, 121), tw(4, 131), tw(5, 145)];

    let merged = merge_token_windows(&left, &right, 25);

    assert_eq!(token_ids(&merged), vec![1, 2, 3, 4, 5]);
    assert_eq!(merged[1].timestamp, 110);
}

#[test]
fn token_window_merge_midpoint_drops_overlap_alternates() {
    let left = vec![tw(1, 100), tw(90, 110), tw(3, 120)];
    let right = vec![tw(91, 112), tw(92, 121), tw(4, 140)];

    let merged = merge_token_windows(&left, &right, 25);

    assert_eq!(token_ids(&merged), vec![1, 90, 92, 4]);
}

#[test]
fn token_window_merge_concatenates_disjoint_decodes() {
    let left = vec![tw(1, 10), tw(2, 20)];
    let right = vec![tw(3, 21), tw(4, 30)];
    assert_eq!(token_ids(&merge_token_windows(&left, &right, 25)), vec![1, 2, 3, 4]);
    assert_eq!(token_ids(&merge_token_windows(&[], &right, 25)), vec![3, 4]);
    assert_eq!(token_ids(&merge_token_windows(&left, &[], 25)), vec![1, 2]);
}

#[test]
fn token_window_merge_falls_back_to_a_common_subsequence() {
    let left = vec![tw(1, 100), tw(2, 104), tw(7, 106), tw(3, 108), tw(8, 110), tw(4, 112)];
    let right = vec![tw(2, 104), tw(3, 108), tw(9, 109), tw(4, 112), tw(5, 120)];
    let contiguous = contiguous_token_matches(&left[1..], &right, 12);
    assert_eq!(contiguous, vec![(0, 0)]);
    let common = lcs_token_matches(&left[1..], &right, 12);
    assert_eq!(common, vec![(0, 0), (2, 1), (4, 3)]);
    let merged = merge_token_windows(&left, &right, 25);
    assert_eq!(token_ids(&merged), vec![1, 2, 7, 3, 8, 4, 5]);
}

#[test]
fn token_window_pruning_keeps_overlap_before_committed_cutoff() {
    let mut windows = vec![tw(1, 10), tw(2, 20), tw(3, 30), tw(4, 40)];

    prune_token_windows_before(&mut windows, encoder_frame_to_ms(25));

    assert_eq!(token_ids(&windows), vec![3, 4]);
}

#[test]
fn converts_sentencepiece_tokens_to_word_timings() {
    let vocab = vec![
        Some("<unk>".to_string()),
        Some("▁hel".to_string()),
        Some("lo".to_string()),
        Some("▁world".to_string()),
        Some("!".to_string()),
    ];
    let windows: Vec<TokenWindow<f32>> = [(1, 0, 1), (2, 1, 2), (3, 4, 1), (4, 5, 1)]
        .iter()
        .map(|&(token, timestamp, duration)| TokenWindow {
            token,
            timestamp,
            confidence: 0.0,
            duration,
        })
        .collect();
    let words = token_windows_to_word_timings(&windows, &vocab);
    assert_eq!(
        words,
        vec![
            WordTiming {
                start_ms: 0,
                end_ms: 240,
                text: "hello".into()
            },
            WordTiming {
                start_ms: 320,
                end_ms: 480,
                text: "world!".into()
            },
        ]
    );
}

#[test]
fn word_grouping_sorts_by_frame_and_skips_special_and_unknown_tokens() {
    let vocab = vec![
        Some("<blank>".to_string()),
        Some("▁yes".to_string()),
        None,
        Some(" no".to_string()),
    ];
    let windows = vec![tw(3, 10), tw(0, 2), tw(1, 5), tw(2, 7), tw(9, 8)];
    let words = token_windows_to_word_timings(&windows, &vocab);
    assert_eq!(
        words,
        vec![
            WordTiming {
                start_ms: 400,
                end_ms: 480,
                text: "yes".into()
            },
            WordTiming {
                start_ms: 800,
                end_ms: 880,
                text: "no".into()
            },
        ]
    );
}

#[derive(Clone, Debug, PartialEq, Eq)]
struct FakeState(Vec<u64>);

fn replay(mut state: FakeState, start_s: u64, end_s: u64) -> FakeState {
    state.0.extend(start_s..end_s);
    state
}

#[test]
fn fake_overlap_replay_matches_continuous_state_not_live_double_feed() {
    let continuous = replay(FakeState(Vec::new()), 0, 16);
    let state_at_5 = replay(FakeState(Vec::new()), 0, 5);
    let state_at_10 = replay(state_at_5.clone(), 5, 10);
    let live_at_15 = replay(state_at_10.clone(), 10, 15);

    let checkpoints = checkpoint_times(&[0, 5_000, 10_000, 15_000]);
    let config = overlap_config(2_000);
    let plan = select_decode_plan(15_000, &checkpoints, &config, 16_000);
    assert_eq!(plan.start_ms, 10_000);

    let replayed_from_checkpoint = replay(state_at_10, 10, 16);
    let double_fed_live_state = replay(live_at_15, 13, 16);

    assert_eq!(replayed_from_checkpoint, continuous);
    assert_ne!(double_fed_live_state, continuous);
    assert_eq!(
        double_fed_live_state.0,
        vec![0, 1, 2, 3, 4, 5, 6, 7, 8, 9, 10, 11, 12, 13, 14, 13, 14, 15]
    );
}

fn session_vocab() -> Vec<Option<String>> {
    vec![
        Some("<blank>".to_string()),
        Some("▁hello".to_string()),
        Some("▁world".to_string()),
    ]
}

fn word(start_ms: u64, end_ms: u64, text: &str) -> WordTiming {
    WordTiming {
        start_ms,
        end_ms,
        text: text.to_string(),
    }
}

#[test]
fn live_session_plans_replays_and_commits_stable_words() {
    let mut session: CoreMlAsrSession<f32, f32> =
        CoreMlAsrSession::new(session_vocab(), CoreMlStreamingConfig::default());
    session.append_audio(&vec![0.0f32; 48_000]);
    let target = session.update_target(3_000).unwrap();
    assert_eq!(target, 2_960);

    let first = session.next_step(target).unwrap();
    assert_eq!(first.end_ms, 960);
    assert_eq!(first.plan.kind, DecodePlanKind::Initial);
    let outcome = session.complete_step(first.end_ms, vec![tw(1, 2)]);
    assert!(!outcome.checkpoint_created);
    assert_eq!(outcome.checkpoints_pruned, 0);
    assert!(session.committed_words().is_empty());
    assert_eq!(session.hypothesis_words(), &[word(160, 240, "hello")]);
    assert_eq!(session.decoded_until_ms(), 960);

    let second = session.next_step(target).unwrap();
    assert_eq!(second.end_ms, 1_920);
    assert_eq!(second.plan.kind, DecodePlanKind::OverlapReplay);
    assert_eq!(second.plan.restore_checkpoint, Some(0));
    session.restore_checkpoint(0);
    assert!(session.hypothesis_words().is_empty());
    assert_eq!(session.decoded_until_ms(), 0);
    session.complete_step(second.end_ms, vec![tw(1, 2), tw(2, 15)]);
    assert_eq!(session.committed_words(), &[word(160, 240, "hello")]);
    assert_eq!(session.hypothesis_words(), &[word(1_200, 1_280, "world")]);
    assert_eq!(session.committed_until_ms(), 240);

    let third = session.next_step(target).unwrap();
    assert_eq!(third.end_ms, 2_880);
    session.restore_checkpoint(third.plan.restore_checkpoint.unwrap());
    session.complete_step(third.end_ms, vec![tw(1, 2), tw(2, 15)]);
    let fourth = session.next_step(target).unwrap();
    assert_eq!(fourth.end_ms, 2_960);
    session.restore_checkpoint(fourth.plan.restore_checkpoint.unwrap());
    session.complete_step(fourth.end_ms, vec![tw(1, 2), tw(2, 15)]);
    assert!(session.next_step(target).is_none());
    assert_eq!(session.committed_words(), &[word(160, 240, "hello"), word(1_200, 1_280, "world")]);
    assert!(session.hypothesis_words().is_empty());

    let end = session.finish_target(3_000).unwrap();
    assert_eq!(end, 3_000);
    let before = session.decoded_until_ms();
    let plan = session.final_plan(end);
    assert_eq!(plan.kind, DecodePlanKind::OverlapReplay);
    session.restore_checkpoint(plan.restore_checkpoint.unwrap());
    let checkpoint = session.complete_final(before, end, vec![tw(1, 2), tw(2, 15), tw(1, 30)]);
    assert!(!checkpoint);
    assert_eq!(session.decoded_until_ms(), 3_000);
    assert_eq!(
        session.committed_words(),
        &[word(160, 240, "hello"), word(1_200, 1_280, "world"), word(2_400, 2_480, "hello")]
    );
    assert_eq!(
        session.update_target(4_000),
        Err(StreamingSessionError::UpdateAfterFinish)
    );
    assert_eq!(
        session.finish_target(4_000),
        Err(StreamingSessionError::AlreadyFinished)
    );
    assert_eq!(
        StreamingSessionError::AlreadyFinished.message(),
        "CoreML ASR session has already been finalized"
    );
}

#[test]
fn live_session_checkpoints_on_interval_and_trims_audio() {
    let config = CoreMlStreamingConfig {
        step_ms: 1_000,
        overlap_ms: 0,
        stability_lag_ms: 0,
        checkpoint_interval_ms: 1_000,
    };
    let mut session: CoreMlAsrSession<i16, f32> = CoreMlAsrSession::new(session_vocab(), config);
    session.append_audio(&vec![0i16; 16_000 * 20]);
    let target = session.update_target(20_000).unwrap();
    let mut created = 0;
    let mut pruned = 0;
    while let Some(step) = session.next_step(target) {
        assert!(step.plan.restore_checkpoint.is_none());
        let outcome = session.complete_step(step.end_ms, Vec::new());
        if outcome.checkpoint_created {
            created += 1;
        }
        pruned += outcome.checkpoints_pruned;
    }
    assert_eq!(session.decoded_until_ms(), 20_000);
    assert_eq!(created, 20);
    assert_eq!(session.checkpoints_len(), 21 - pruned);
    assert!(session.checkpoints_len() >= 1);
    let oldest = session.checkpoints()[0].time_ms;
    assert!(20_000 - oldest <= 15_000);
    assert_eq!(oldest, 5_760);
    assert_eq!(session.audio().base_sample_index(), oldest * 16);
}

#[test]
fn transcript_update_reports_committed_and_hypothesis_words() {
    let mut session: CoreMlAsrSession<f32, f32> =
        CoreMlAsrSession::new(session_vocab(), CoreMlStreamingConfig::default());
    session.append_audio(&vec![0.0f32; 48_000]);
    let target = session.update_target(3_000).unwrap();
    let first = session.next_step(target).unwrap();
    session.complete_step(first.end_ms, vec![tw(1, 2)]);
    let second = session.next_step(target).unwrap();
    session.restore_checkpoint(second.plan.restore_checkpoint.unwrap());
    session.complete_step(second.end_ms, vec![tw(1, 2), tw(2, 15)]);
    assert_eq!(
        session.transcript_update(),
        StreamingTranscriptUpdate {
            committed: vec![word(160, 240, "hello")],
            hypothesis: vec![word(1_200, 1_280, "world")],
            decoded_until_ms: 1_920,
            committed_until_ms: 240,
        }
    );
}

#[test]
fn token_frame_limit_keeps_milliseconds_in_range() {
    let limit = token_frame_limit_value();
    assert!(limit as u64 <= MAX_TOKEN_FRAME);
    assert!((limit as u64).checked_mul(80).is_some());
    assert!(limit.checked_add(limit).is_some());
    assert_eq!(MAX_TOKEN_FRAME, u64::MAX / 80);
}

#[test]
fn word_timings_reach_frames_beyond_thirty_two_bits() {
    let words = token_windows_to_word_timings(&[tw(1, 5_000_000_000)], &session_vocab());
    assert_eq!(words, vec![word(400_000_000_000, 400_000_000_080, "hello")]);
}
