use benzaiten::domain::lyrics::parse_lyrics;
use benzaiten::forced_alignment::tokenizer::{
    detect_language, is_alignable_character, is_japanese_character, normalize_english,
    normalize_japanese, resolve_language, tokenize, tokenize_english, tokenize_japanese,
    vocabulary_from_json, AlignmentLanguage, Vocabulary,
};
use benzaiten::forced_alignment::trellis::{backtrack_path, may_skip_blank, token_spans};

#[test]
fn preserves_line_ownership_while_normalizing_english() {
    let lyrics = parse_lyrics("Hello, world!\nDon't-stop");
    let transcript = tokenize_english(&lyrics).unwrap();
    assert_eq!(transcript.delimiter_id, Some(4));
    assert_eq!(transcript.line_indices[0], 0);
    assert_eq!(*transcript.line_indices.last().unwrap(), 1);
    assert_eq!(transcript.token_ids.len(), transcript.line_indices.len());
}

#[test]
fn auto_detects_japanese_scripts() {
    assert_eq!(
        detect_language(&parse_lyrics("君と歌う")),
        AlignmentLanguage::Japanese
    );
    assert_eq!(
        detect_language(&parse_lyrics("We sing")),
        AlignmentLanguage::English
    );
}

#[test]
fn tokenizes_japanese_with_external_vocabulary() {
    let vocabulary = Vocabulary::new(
        vec![('君', 5), ('と', 6), ('歌', 7), ('う', 8), ('|', 4)],
        0,
        Some(4),
    );
    let transcript = tokenize_japanese(&parse_lyrics("君と\n歌う"), &vocabulary).unwrap();
    assert_eq!(transcript.token_ids, vec![5, 6, 4, 7, 8]);
    assert_eq!(transcript.line_indices, vec![0, 0, 1, 1, 1]);
}

#[test]
fn unsupported_japanese_characters_are_reported_sorted_once() {
    let vocabulary = Vocabulary::new(vec![('君', 5), ('|', 4)], 0, Some(4));
    let error = tokenize_japanese(&parse_lyrics("歌君歌と"), &vocabulary).unwrap_err();
    assert_eq!(
        error,
        "日本語モデルの語彙にない文字があります: と歌。ひらがな・カタカナへ置き換えてください"
    );
}

#[test]
fn pronunciation_guide_never_changes_alignment_tokens() {
    let mut lyrics = parse_lyrics("HELLO");
    let original = tokenize(&lyrics).unwrap();
    lyrics[0].reading_text = Some("ハロー".into());
    let with_reading = tokenize(&lyrics).unwrap();
    assert_eq!(original, with_reading);
}

#[test]
fn english_normalization_keeps_letters_apostrophes_and_spaces() {
    let normalized: String = normalize_english("Don't-stop, me!").into_iter().collect();
    assert_eq!(normalized, "DON'T STOP ME");
    let curly_stop: String = normalize_english("Don\u{2019}t-stop").into_iter().collect();
    assert_eq!(curly_stop, "DON'T STOP");
    let curly: String = normalize_english("Don\u{2019}t").into_iter().collect();
    assert_eq!(curly, "DON'T");
}

#[test]
fn japanese_normalization_folds_width_variants() {
    let normalized: String = normalize_japanese("ＡＢＣ ｶﾞ").into_iter().collect();
    assert_eq!(normalized, "ABC ガ");
}

#[test]
fn character_classes() {
    assert!(is_japanese_character('あ'));
    assert!(is_japanese_character('ア'));
    assert!(is_japanese_character('君'));
    assert!(!is_japanese_character('A'));
    assert!(is_alignable_character('7'));
    assert!(!is_alignable_character('!'));
}

#[test]
fn language_modes_resolve_case_insensitively() {
    let lyrics = parse_lyrics("君");
    assert_eq!(resolve_language("AUTO", &lyrics), Ok(AlignmentLanguage::Japanese));
    assert_eq!(resolve_language("En", &lyrics), Ok(AlignmentLanguage::English));
    assert_eq!(resolve_language("ja", &lyrics), Ok(AlignmentLanguage::Japanese));
    assert_eq!(
        resolve_language("fr", &lyrics),
        Err("unsupported lyric language mode \"fr\"; choose Auto, en, or jp".to_string())
    );
    assert_eq!(AlignmentLanguage::English.code(), "en");
}

#[test]
fn a_blank_may_be_skipped_only_between_different_tokens() {
    let tokens = vec![7, 7, 9];
    assert!(!may_skip_blank(1, &tokens));
    assert!(!may_skip_blank(2, &tokens));
    assert!(!may_skip_blank(3, &tokens));
    assert!(may_skip_blank(5, &tokens));
}

#[test]
fn backtracking_the_trace_gives_each_token_its_frames() {
    // two tokens, five states; the best path is 1, 2, 3, 4, 4
    let states = 5;
    let frames = 5;
    let mut trace = vec![0_u8; frames * states];
    trace[states + 2] = 1;
    trace[2 * states + 3] = 1;
    trace[3 * states + 4] = 1;
    let path = backtrack_path(&trace, frames, states, 4);
    assert_eq!(path, vec![1, 2, 3, 4, 4]);
    let spans = token_spans(&path, 2);
    assert_eq!(spans, vec![Some((0, 1)), Some((2, 3))]);
    // a token the path never visits has no span
    assert_eq!(token_spans(&vec![0, 0, 3], 2), vec![None, Some((2, 3))]);
    // a move larger than the state stops at the first state
    let trace = vec![0_u8, 0, 0, 2, 0, 0];
    assert_eq!(backtrack_path(&trace, 2, 3, 0), vec![0, 0]);
}

#[test]
fn loads_hugging_face_tokenizer_json() {
    let bytes = br#"{"model":{"type":"WordLevel","vocab":{"<pad>":0,"|":4,"\u541b":5}}}"#;
    let vocabulary = vocabulary_from_json(bytes, "tokenizer.json").unwrap();
    assert_eq!(vocabulary.blank_id, 0);
    assert_eq!(vocabulary.delimiter_id(), Some(4));
    assert_eq!(vocabulary.token_id('君'), Some(5));
}

#[test]
fn vocabulary_maps_are_found_in_vocab_or_at_the_top() {
    let nested = vocabulary_from_json(br#"{"vocab":{"[PAD]":3,"a":7}}"#, "v.json").unwrap();
    assert_eq!(nested.blank_id, 3);
    assert_eq!(nested.token_id('a'), Some(7));
    let top = vocabulary_from_json(br#"{"<blank>":2,"b":9,"ab":10}"#, "v.json").unwrap();
    assert_eq!(top.blank_id, 2);
    assert_eq!(top.token_id('b'), Some(9));
    assert_eq!(top.delimiter_id(), None);
}

#[test]
fn vocabulary_errors_name_the_file() {
    let not_found = vocabulary_from_json(br#"{"model":{"vocab":[1,2]}}"#, "t.json").unwrap_err();
    assert_eq!(not_found, "vocabulary map was not found in t.json");
    let not_object = vocabulary_from_json(b"[1, 2]", "t.json").unwrap_err();
    assert_eq!(not_object, "vocabulary map was not found in t.json");
    let invalid = vocabulary_from_json(b"{oops", "t.json").unwrap_err();
    assert!(invalid.starts_with("invalid vocabulary JSON t.json: "));
    let no_chars = vocabulary_from_json(br#"{"<pad>":0,"ab":1}"#, "t.json").unwrap_err();
    assert_eq!(no_chars, "t.json contains no character tokens");
}

#[test]
fn straight_apostrophes_are_alignment_tokens() {
    let transcript = tokenize_english(&parse_lyrics("Don't")).unwrap();
    // D O N ' T
    assert_eq!(transcript.token_ids, vec![14, 8, 9, 27, 6]);
}
