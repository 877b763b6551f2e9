use margins::media::ort_runtime::{
    dynamic_ort_error, dynamic_ort_runtime_path_from_value, validate_dynamic_ort_version,
    RuntimeFileProbe, ORT_MINOR_VERSION,
};
use margins::media::timed_tokens::{decode_tokens, group_tokens_to_words, TimedToken, TimedTokenId};
use margins::media::vocabulary::Vocabulary;

fn vocab(lines: &[&str]) -> Vocabulary {
    let lines: Vec<String> = lines.iter().map(|l| l.to_string()).collect();
    Vocabulary::from_lines(&lines).unwrap()
}

fn ids(pairs: &[(usize, usize)]) -> Vec<TimedTokenId> {
    pairs.iter().map(|&(id, frame)| TimedTokenId { id, frame }).collect()
}

fn piece(text: &str, start_frame: usize, end_frame: usize) -> TimedToken {
    TimedToken {
        text: text.to_owned(),
        start_frame,
        end_frame,
    }
}

#[test]
fn decoding_skips_control_and_unknown_ids_and_spans_to_the_next_token() {
    let vocab = vocab(&[
        "<unk> 0", "<blk> 1", "▁Hello 2", "▁hello 3", "▁world 4", "'s 5", "▁it 6", ". 7",
    ]);
    let tokens = ids(&[(2, 0), (3, 2), (4, 4), (5, 6), (1, 7), (6, 8), (7, 9), (99, 12)]);
    let pieces = decode_tokens(&vocab, &tokens);
    assert_eq!(
        pieces,
        vec![
            piece(" Hello", 0, 2),
            piece(" hello", 2, 4),
            piece(" world", 4, 6),
            piece("'s", 6, 7),
            piece(" it", 8, 9),
            piece(".", 9, 12),
        ]
    );
    let unknown = decode_tokens(&vocab, &ids(&[(0, 3)]));
    assert_eq!(unknown, vec![piece("<unk>", 3, 4)]);
}

#[test]
fn digits_after_a_word_or_the_article_a_get_a_space() {
    let vocab = vocab(&["▁a 0", "5 1", "▁room 2", "▁x 3", "7 4"]);
    let tokens = ids(&[(0, 0), (1, 1), (2, 2), (1, 3), (3, 4), (4, 5)]);
    assert_eq!(
        decode_tokens(&vocab, &tokens),
        vec![
            piece(" a", 0, 1),
            piece(" 5", 1, 2),
            piece(" room", 2, 3),
            piece(" 5", 3, 4),
            piece(" x", 4, 5),
            piece("7", 5, 6),
        ]
    );
    let first = decode_tokens(&vocab, &ids(&[(1, 0)]));
    assert_eq!(first, vec![piece("5", 0, 1)]);
}

#[test]
fn grouping_joins_contractions_and_drops_repeated_words() {
    let pieces = vec![
        piece(" Hello", 0, 2),
        piece(" hello", 2, 4),
        piece(" world", 4, 6),
        piece("'s", 6, 7),
        piece(" it", 8, 9),
        piece(".", 9, 12),
    ];
    assert_eq!(
        group_tokens_to_words(&pieces),
        vec![
            piece("Hello", 0, 2),
            piece("world's", 4, 7),
            piece("it", 8, 9),
            piece(".", 9, 12),
        ]
    );
}

#[test]
fn blank_pieces_close_words_and_hyphens_continue_them() {
    let pieces = vec![
        piece("▁well", 0, 1),
        piece("-", 1, 2),
        piece("known", 2, 3),
        piece(" ", 3, 5),
        piece("▁Straße", 5, 6),
        piece("▁STRAßE", 6, 7),
        piece("▁Ende", 7, 8),
    ];
    assert_eq!(
        group_tokens_to_words(&pieces),
        vec![
            piece("well-known", 0, 5),
            piece("Straße", 5, 6),
            piece("Ende", 7, 8),
        ]
    );
    assert_eq!(group_tokens_to_words(&[]), Vec::<TimedToken>::new());
}

#[test]
fn missing_runtime_path_is_actionable_before_ort_initializes() {
    let error = dynamic_ort_runtime_path_from_value(None, &RuntimeFileProbe::File).unwrap_err();
    assert!(error.contains("ORT_DYLIB_PATH"));
    assert!(error.contains("1.24"));
}

#[test]
fn unreadable_or_non_file_runtime_paths_are_actionable() {
    let unreadable = dynamic_ort_runtime_path_from_value(
        Some("/nope/libonnxruntime.so".to_owned()),
        &RuntimeFileProbe::Unreadable {
            reason: "No such file or directory (os error 2)".to_owned(),
        },
    )
    .unwrap_err();
    assert!(unreadable.contains("ORT_DYLIB_PATH"));
    assert!(unreadable.contains("readable file (No such file or directory (os error 2))"));
    let directory = dynamic_ort_runtime_path_from_value(Some("/tmp".to_owned()), &RuntimeFileProbe::NotAFile)
        .unwrap_err();
    assert!(directory.contains("does not name a file"));
    assert_eq!(
        dynamic_ort_runtime_path_from_value(Some("/lib/ort.so".to_owned()), &RuntimeFileProbe::File),
        Ok("/lib/ort.so".to_owned())
    );
}

#[test]
fn too_old_runtime_version_is_actionable() {
    let error = validate_dynamic_ort_version("1.23.0").unwrap_err();
    assert!(error.contains("1.24"));
    assert!(error.contains("reports version 1.23.0"));
}

#[test]
fn runtime_versions_compare_by_their_minor_part() {
    assert_eq!(ORT_MINOR_VERSION, 24);
    assert!(validate_dynamic_ort_version("1.24.0").is_ok());
    assert!(validate_dynamic_ort_version("1.30").is_ok());
    assert!(validate_dynamic_ort_version("1").is_err());
    assert!(validate_dynamic_ort_version("1.x.0").is_err());
    assert!(validate_dynamic_ort_version("").is_err());
    assert_eq!(
        dynamic_ort_error("returned a null OrtGetApiBase"),
        "ONNX Runtime dynamic loading returned a null OrtGetApiBase. Set ORT_DYLIB_PATH to an absolute path to the official ONNX Runtime 1.24.x library (for example libonnxruntime.so or libonnxruntime.dylib)."
    );
}

use margins::media::long_form::{
    chunk_word_timings, keep_core_words, parakeet_chunk_windows, ChunkWindow, CoreSpan,
};
use margins::media::transcript::WordTiming;

fn timing(start_ms: u64, end_ms: u64, text: &str) -> WordTiming {
    WordTiming {
        start_ms,
        end_ms,
        text: text.to_owned(),
    }
}

#[test]
fn short_audio_is_one_window_that_keeps_every_word() {
    for total in [0usize, 1, 240_000] {
        assert_eq!(
            parakeet_chunk_windows(total),
            vec![ChunkWindow {
                start: 0,
                end: total,
                offset_ms: 0,
                core: None
            }]
        );
    }
}

#[test]
fn long_audio_windows_overlap_and_their_cores_tile_the_timeline() {
    let windows = parakeet_chunk_windows(500_000);
    assert_eq!(
        windows,
        vec![
            ChunkWindow {
                start: 0,
                end: 240_000,
                offset_ms: 0,
                core: Some(CoreSpan { from_ms: 0, until_ms: 14_500 })
            },
            ChunkWindow {
                start: 224_000,
                end: 464_000,
                offset_ms: 14_000,
                core: Some(CoreSpan { from_ms: 14_500, until_ms: 28_500 })
            },
            ChunkWindow {
                start: 448_000,
                end: 500_000,
                offset_ms: 28_000,
                core: Some(CoreSpan { from_ms: 28_500, until_ms: u64::MAX })
            },
        ]
    );
    assert_eq!(parakeet_chunk_windows(240_001).len(), 2);
    assert_eq!(parakeet_chunk_windows(464_000).len(), 2);
    assert_eq!(parakeet_chunk_windows(464_001).len(), 3);
}

#[test]
fn a_word_in_an_overlap_is_kept_by_one_window() {
    let windows = parakeet_chunk_windows(500_000);
    let words = vec![timing(14_000, 14_998, "left"), timing(14_400, 14_700, "split"), timing(14_600, 15_000, "right")];
    let first = keep_core_words(&windows[0], &words);
    let second = keep_core_words(&windows[1], &words);
    assert_eq!(first, vec![timing(14_000, 14_998, "left")]);
    assert_eq!(second, vec![timing(14_400, 14_700, "split"), timing(14_600, 15_000, "right")]);
}

#[test]
fn window_words_become_timings_after_the_window_start() {
    let words = vec![
        piece("Hello", 0, 2),
        piece(" ", 2, 3),
        piece("world", 4, 7),
    ];
    assert_eq!(
        chunk_word_timings(&words, 14_000),
        vec![timing(14_000, 14_160, "Hello"), timing(14_320, 14_560, "world")]
    );
}

use margins::media::greedy_tdt::{GreedyTdt, MAX_TOKENS_PER_STEP};

/// Runs the decoder against scripted network answers, one per step.
fn run_greedy(vocab_size: usize, time_steps: usize, answers: &[(usize, usize)]) -> (Vec<TimedTokenId>, Vec<(usize, usize)>) {
    let mut decoder = GreedyTdt::new(vocab_size, time_steps);
    let mut asked = Vec::new();
    let mut next = answers.iter();
    while !decoder.is_done() {
        asked.push((decoder.frame(), decoder.target()));
        let &(token, duration) = next.next().expect("script ran out");
        decoder.step(token, duration);
    }
    (decoder.into_tokens(), asked)
}

#[test]
fn greedy_decoding_emits_non_blank_tokens_and_follows_durations() {
    // vocabulary of 5: the blank is token 4
    let (tokens, asked) = run_greedy(5, 6, &[(1, 0), (2, 2), (4, 0), (3, 1), (4, 3)]);
    assert_eq!(
        tokens,
        vec![
            TimedTokenId { id: 1, frame: 0 },
            TimedTokenId { id: 2, frame: 0 },
            TimedTokenId { id: 3, frame: 3 },
        ]
    );
    assert_eq!(asked, vec![(0, 4), (0, 1), (2, 2), (3, 2), (4, 3)]);
}

#[test]
fn greedy_decoding_moves_on_after_the_per_frame_token_limit() {
    let mut answers = vec![(0, 0); MAX_TOKENS_PER_STEP + 1];
    answers.push((2, 0));
    let (tokens, asked) = run_greedy(3, 2, &answers);
    assert_eq!(tokens.len(), MAX_TOKENS_PER_STEP + 1);
    assert!(tokens[..MAX_TOKENS_PER_STEP].iter().all(|t| t.frame == 0));
    assert_eq!(tokens[MAX_TOKENS_PER_STEP].frame, 1);
    assert_eq!(asked[MAX_TOKENS_PER_STEP], (1, 0));
    let empty = GreedyTdt::new(0, 0);
    assert!(empty.is_done());
    assert_eq!(empty.blank_id(), 0);
}
