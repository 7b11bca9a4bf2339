use std::path::Path;
use std::sync::atomic::AtomicBool;

use benzaiten::domain::lyrics::parse_lyrics;
use benzaiten::jobs::{cancellation_result, check_cancelled, check_threads, ToolSettings};
use benzaiten::domain::project::MusicMetadata;
use benzaiten::metadata::{
    backup_extension, lyrics_tag, plan_tags, tag_text, tag_year, AudioMetadata, ItemChange, TagContainer,
};
use benzaiten::process::{
    bare_command_from, cancellation_error, capture_chunk, exit_error, format_tool_output,
    is_bare_command, wait_error, MAX_CAPTURE_BYTES,
};

#[test]
fn bare_command_names_are_left_for_path_resolution() {
    assert!(is_bare_command(Path::new("ffmpeg")));
    assert!(!is_bare_command(Path::new(".\\tools\\ffmpeg.exe")));
}

#[test]
fn bare_commands_have_a_name_and_no_separator() {
    assert!(bare_command_from(true, "ffmpeg"));
    assert!(!bare_command_from(false, "ffmpeg"));
    assert!(!bare_command_from(true, "bin/ffmpeg"));
    assert!(!bare_command_from(true, "bin\\ffmpeg"));
}

#[test]
fn tool_output_prefers_standard_error() {
    assert_eq!(format_tool_output(" out ", " err\n"), ": err");
    assert_eq!(format_tool_output(" out ", " \n"), ": out");
    assert_eq!(format_tool_output("", "  "), "");
    assert_eq!(cancellation_error("", "boom "), "processing cancelled: boom");
    assert_eq!(cancellation_error("", ""), "processing cancelled");
}

#[test]
fn captured_output_stops_at_the_limit() {
    let mut captured = Vec::new();
    capture_chunk(&mut captured, &[1, 2, 3]);
    assert_eq!(captured, vec![1, 2, 3]);
    let big = vec![7u8; MAX_CAPTURE_BYTES];
    capture_chunk(&mut captured, &big);
    assert_eq!(captured.len(), MAX_CAPTURE_BYTES);
    assert_eq!(&captured[..3], &[1, 2, 3]);
    capture_chunk(&mut captured, &[9]);
    assert_eq!(captured.len(), MAX_CAPTURE_BYTES);
    assert_eq!(*captured.last().unwrap(), 7);
}

#[test]
fn cancellation_is_reported_with_its_message() {
    assert_eq!(cancellation_result(true), Err("processing cancelled".to_string()));
    assert_eq!(cancellation_result(false), Ok(()));
    assert_eq!(check_cancelled(&AtomicBool::new(true)), Err("processing cancelled".to_string()));
    assert_eq!(check_cancelled(&AtomicBool::new(false)), Ok(()));
}

#[test]
fn default_settings_and_thread_check() {
    let settings = ToolSettings::default();
    assert_eq!(settings.language, "en");
    assert_eq!(settings.threads, 8);
    assert!(settings.vocabulary.is_none());
    assert_eq!(
        settings.model,
        std::path::PathBuf::from("models/wav2vec2-base-960h.onnx")
    );
    assert!(check_threads(1).is_ok());
    assert_eq!(
        check_threads(0),
        Err("Forced Alignment thread count must be at least 1".to_string())
    );
}

#[test]
fn model_files_are_checked_in_order() {
    let english = parse_lyrics("We sing");
    let japanese = parse_lyrics("君と歌う");
    let settings = ToolSettings::default();
    assert!(settings
        .validate_model_with(&english, true, false, "m.onnx", false, "")
        .unwrap_err()
        .contains("未設定"));
    assert_eq!(
        settings
            .validate_model_with(&english, false, false, "m.onnx", false, "")
            .unwrap_err(),
        "Forced Alignmentモデルが見つかりません: m.onnx。「外部ツール設定」からファイルを選び直してください。"
    );
    assert!(settings
        .validate_model_with(&english, false, true, "m.onnx", false, "")
        .is_ok());
    let auto = ToolSettings {
        language: "auto".into(),
        ..ToolSettings::default()
    };
    assert_eq!(
        auto.validate_model_with(&japanese, false, true, "m.onnx", false, "")
            .unwrap_err(),
        "日本語tokenizerが未設定です。外部ツール設定からtokenizer.jsonを選択してください。"
    );
    let with_vocabulary = ToolSettings {
        language: "jp".into(),
        vocabulary: Some("tokenizer.json".into()),
        ..ToolSettings::default()
    };
    assert_eq!(
        with_vocabulary
            .validate_model_with(&english, false, true, "m.onnx", false, "tokenizer.json")
            .unwrap_err(),
        "日本語tokenizerが見つかりません: tokenizer.json"
    );
    assert!(with_vocabulary
        .validate_model_with(&english, false, true, "m.onnx", true, "tokenizer.json")
        .is_ok());
    let unknown = ToolSettings {
        language: "fr".into(),
        ..ToolSettings::default()
    };
    assert!(unknown
        .validate_model_with(&english, false, true, "m.onnx", true, "")
        .unwrap_err()
        .contains("unsupported lyric language mode"));
}

#[test]
fn tag_values_are_trimmed_or_removed() {
    assert_eq!(tag_text("  Song "), Some("Song".to_string()));
    assert_eq!(tag_text(" \t"), None);
    assert_eq!(lyrics_tag(Some("[00:00.00]hello\n")), Some("[00:00.00]hello\n".to_string()));
    assert_eq!(lyrics_tag(Some("  ")), None);
    assert_eq!(lyrics_tag(None), None);
    assert_eq!(tag_year(Some(2024)), Some(2024));
    assert_eq!(tag_year(Some(70_000)), None);
    assert_eq!(tag_year(None), None);
    assert_eq!(backup_extension(Some("mp3")), "mp3.tag-backup");
    assert_eq!(backup_extension(None), "audio.tag-backup");
    let empty = AudioMetadata::default();
    assert!(empty.title.is_empty() && empty.artwork.is_none());
}

#[test]
fn tool_failures_quote_the_program_and_its_output() {
    assert_eq!(
        exit_error("ffmpeg", "exit status: 1", "", "  bad input \n"),
        "ffmpeg exited with exit status: 1: bad input"
    );
    assert_eq!(exit_error("tool", "signal: 9", "", ""), "tool exited with signal: 9");
    assert_eq!(
        wait_error("tool", "interrupted", "partial", " "),
        "could not wait for tool: interrupted: partial"
    );
}

fn metadata() -> MusicMetadata {
    MusicMetadata {
        album: "  Album ".into(),
        album_artist: "   ".into(),
        genre: "Pop".into(),
        year: Some(70_000),
        track_number: Some(3),
        disc_number: None,
        artwork_path: None,
    }
}

#[test]
fn tag_plans_write_lyrics_only_where_the_container_holds_them() {
    let flac = plan_tags(TagContainer::Flac, " Song ", "", &metadata(), Some(" [00:01.00]la \n"));
    assert_eq!(flac.title, ItemChange::Write("Song".into()));
    assert_eq!(flac.artist, ItemChange::Remove);
    assert_eq!(flac.album, ItemChange::Write("Album".into()));
    assert_eq!(flac.album_artist, ItemChange::Remove);
    assert_eq!(flac.genre, ItemChange::Write("Pop".into()));
    assert_eq!(flac.lyrics, ItemChange::Write("[00:01.00]la".into()));
    assert_eq!(flac.year, None);
    assert_eq!(flac.track, Some(3));
    assert_eq!(flac.disc, None);
    let mp4 = plan_tags(TagContainer::Mp4, "Song", "Artist", &metadata(), Some("  "));
    assert_eq!(mp4.lyrics, ItemChange::Remove);
    let mp3 = plan_tags(TagContainer::Other, "Song", "Artist", &metadata(), Some("[00:01.00]la"));
    assert_eq!(mp3.lyrics, ItemChange::Keep);
    assert_eq!(mp3.artist, ItemChange::Write("Artist".into()));
}
