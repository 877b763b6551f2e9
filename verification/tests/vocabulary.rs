use margins::media::channels::contiguous_strides;
use margins::media::tokens::{
    hypothesis_token_windows, map_duration_bin, should_emit_token, TokenWindow,
};
use margins::media::vocabulary::{
    parse_usize, vocabulary_from_json, Vocabulary, VocabularyDocument, VocabularyError,
};

fn chars(s: &str) -> Vec<char> {
    s.chars().collect()
}

fn lines(ls: &[&str]) -> Vec<String> {
    ls.iter().map(|l| l.to_string()).collect()
}

#[test]
fn ids_parse_like_unsigned_decimal_text() {
    assert_eq!(parse_usize(&chars("42")), Some(42));
    assert_eq!(parse_usize(&chars("+7")), Some(7));
    assert_eq!(parse_usize(&chars("007")), Some(7));
    assert_eq!(parse_usize(&chars("")), None);
    assert_eq!(parse_usize(&chars("+")), None);
    assert_eq!(parse_usize(&chars("-1")), None);
    assert_eq!(parse_usize(&chars(" 1")), None);
    assert_eq!(parse_usize(&chars("1x")), None);
    let max = usize::MAX.to_string();
    assert_eq!(parse_usize(&chars(&max)), Some(usize::MAX));
    let over = format!("{}0", usize::MAX);
    assert_eq!(parse_usize(&chars(&over)), None);
    for text in ["0", "12", "+3", "x", "", "99999999999999999999999"] {
        assert_eq!(parse_usize(&chars(text)), text.parse::<usize>().ok());
    }
}

#[test]
fn json_array_vocabulary_keeps_positions() {
    let doc = VocabularyDocument::Array {
        items: vec![Some("<unk>".to_owned()), None, Some("▁hi".to_owned())],
    };
    assert_eq!(
        vocabulary_from_json(&doc).unwrap(),
        vec![Some("<unk>".to_owned()), None, Some("▁hi".to_owned())]
    );
}

#[test]
fn json_object_vocabulary_fills_ids_up_to_the_largest_key() {
    let doc = VocabularyDocument::Object {
        entries: vec![
            ("0".to_owned(), Some("<unk>".to_owned())),
            ("3".to_owned(), Some("▁a".to_owned())),
            ("5".to_owned(), None),
            ("name".to_owned(), Some("ignored".to_owned())),
            ("+1".to_owned(), Some("b".to_owned())),
        ],
    };
    assert_eq!(
        vocabulary_from_json(&doc).unwrap(),
        vec![
            Some("<unk>".to_owned()),
            Some("b".to_owned()),
            None,
            Some("▁a".to_owned()),
            None,
            None
        ]
    );
    let empty = VocabularyDocument::Object { entries: vec![] };
    assert_eq!(vocabulary_from_json(&empty).unwrap(), Vec::<Option<String>>::new());
}

#[test]
fn json_vocabulary_must_be_an_array_or_object() {
    let error = vocabulary_from_json(&VocabularyDocument::Other).unwrap_err();
    assert_eq!(error, VocabularyError::NotArrayOrObject);
    assert_eq!(
        error.message(),
        "parakeet_vocab.json must be a JSON array or object"
    );
}

#[test]
fn line_vocabulary_reads_token_id_pairs() {
    let vocab = Vocabulary::from_lines(&lines(&["<unk> 0", "▁the 2", "no-space-line", "a 1"])).unwrap();
    assert_eq!(vocab.size(), 3);
    assert_eq!(vocab.token(0), Some("<unk>"));
    assert_eq!(vocab.token(1), Some("a"));
    assert_eq!(vocab.token(2), Some("▁the"));
    assert_eq!(vocab.token(3), None);
    let later_wins = Vocabulary::from_lines(&lines(&["x 0", "y 0"])).unwrap();
    assert_eq!(later_wins.token(0), Some("y"));
}

#[test]
fn line_vocabulary_rejects_bad_ids_and_empty_files() {
    let bad = Vocabulary::from_lines(&lines(&["a 0", "b x", "c 1"])).unwrap_err();
    assert_eq!(bad, VocabularyError::InvalidTokenId);
    assert_eq!(bad.message(), "invalid Parakeet vocab token id");
    let double_space = Vocabulary::from_lines(&lines(&["a  1"])).unwrap_err();
    assert_eq!(double_space, VocabularyError::InvalidTokenId);
    let empty = Vocabulary::from_lines(&lines(&["no", "spaces"])).unwrap_err();
    assert_eq!(empty, VocabularyError::Empty);
    assert_eq!(empty.message(), "Parakeet vocab is empty");
    assert_eq!(
        Vocabulary::from_lines(&[]).unwrap_err(),
        VocabularyError::Empty
    );
}

#[test]
fn hypothesis_windows_stop_at_the_shortest_list_and_default_durations() {
    let windows = hypothesis_token_windows(&[5, 6, 7], &[0, 2, 4], &[0.5f32, 0.25, 0.75], &[2]);
    assert_eq!(
        windows,
        vec![
            TokenWindow { token: 5, timestamp: 0, confidence: 0.5f32, duration: 2 },
            TokenWindow { token: 6, timestamp: 2, confidence: 0.25f32, duration: 0 },
            TokenWindow { token: 7, timestamp: 4, confidence: 0.75f32, duration: 0 },
        ]
    );
    let short = hypothesis_token_windows(&[5, 6, 7], &[0, 2], &[1u8, 2, 3], &[1, 1, 1]);
    assert_eq!(short.len(), 2);
    assert_eq!(short[1].confidence, 2u8);
}

#[test]
fn duration_bins_map_to_frame_counts() {
    for bin in 0..5 {
        assert_eq!(map_duration_bin(bin), Ok(bin));
    }
    assert_eq!(
        map_duration_bin(5).unwrap_err(),
        "duration bin index out of range: 5"
    );
    assert!(should_emit_token(3, None));
    assert!(should_emit_token(3, Some(3)));
    assert!(!should_emit_token(2, Some(3)));
}

#[test]
fn contiguous_strides_are_row_major() {
    assert_eq!(contiguous_strides(&[2, 3, 4]), vec![12, 4, 1]);
    assert_eq!(contiguous_strides(&[1, 80, 1501]), vec![120080, 1501, 1]);
    assert_eq!(contiguous_strides(&[7]), vec![1]);
    assert_eq!(contiguous_strides(&[]), Vec::<usize>::new());
}
