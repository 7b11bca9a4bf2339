use benzaiten::cli::parse_args;
use benzaiten::domain::lyrics::{merge_original_lyrics, parse_lyrics, ReadingSource};
use benzaiten::domain::project::TimestampSource;
use benzaiten::ui::lyric_inputs::{apply_reading_input, original_input, reading_input};
use benzaiten::ui::timeline::{begin_drag, drag_line};

fn args(list: &[&str]) -> Vec<String> {
    list.iter().map(|s| s.to_string()).collect()
}

#[test]
fn text_boxes_show_one_line_per_row() {
    let mut lyrics = parse_lyrics("one\n\nthree");
    lyrics[2].reading_text = Some("スリー".into());
    assert_eq!(original_input(&lyrics), "one\n\nthree");
    assert_eq!(reading_input(&lyrics), "\n\nスリー");
    assert_eq!(original_input(&Vec::new()), "");
}

#[test]
fn unchanged_original_text_keeps_every_line() {
    let mut lyrics = parse_lyrics("one\ntwo\none");
    lyrics[0].start_ms = Some(100);
    lyrics[1].start_ms = Some(200);
    lyrics[2].start_ms = Some(300);
    lyrics[2].reading_text = Some("ワン".into());
    lyrics[2].timestamp_source = Some(TimestampSource::Manual);
    let text = original_input(&lyrics);
    let merged = merge_original_lyrics(lyrics.clone(), &text);
    assert_eq!(merged, lyrics);
}

#[test]
fn reading_box_rows_become_manual_readings() {
    let mut lyrics = parse_lyrics("one\ntwo\nthree");
    lyrics[1].reading_text = Some("old".into());
    lyrics[1].reading_source = Some(ReadingSource::Generated);
    let count = apply_reading_input(&mut lyrics, " ワン \r\n").unwrap();
    assert_eq!(count, 1);
    assert_eq!(lyrics[0].reading_text.as_deref(), Some("ワン"));
    assert_eq!(lyrics[0].reading_source, Some(ReadingSource::Manual));
    assert_eq!(lyrics[1].reading_text, None);
    assert_eq!(lyrics[1].reading_source, None);
    assert_eq!(lyrics[2].reading_text, None);
}

#[test]
fn too_many_reading_rows_change_nothing() {
    let mut lyrics = parse_lyrics("one");
    let before = lyrics.clone();
    let error = apply_reading_input(&mut lyrics, "a\nb").unwrap_err();
    assert_eq!(
        error,
        "カタカナ歌詞が原文より多くなっています（原文1行 / カタカナ2行）"
    );
    assert_eq!(lyrics, before);
}

#[test]
fn drag_anchor_uses_the_effective_end() {
    let mut lyrics = parse_lyrics("one\ntwo\nthree");
    lyrics[0].start_ms = Some(1_000);
    lyrics[2].start_ms = Some(4_000);
    let anchor = begin_drag(&lyrics, 0).unwrap();
    assert_eq!(anchor.index, 0);
    assert_eq!(anchor.start_ms, 1_000);
    assert_eq!(anchor.length_ms, Some(3_000));
    assert!(begin_drag(&lyrics, 1).is_none());
    assert!(begin_drag(&lyrics, 9).is_none());
    let last = begin_drag(&lyrics, 2).unwrap();
    assert_eq!(last.length_ms, None);

    assert!(drag_line(&mut lyrics, Some(anchor), 0, 500, Some(10_000)));
    assert_eq!(lyrics[0].start_ms, Some(1_500));
    assert_eq!(lyrics[0].end_ms, Some(4_500));
    assert_eq!(lyrics[0].timestamp_source, Some(TimestampSource::Manual));
    let before = lyrics.clone();
    assert!(!drag_line(&mut lyrics, Some(anchor), 1, 500, Some(10_000)));
    assert!(!drag_line(&mut lyrics, None, 0, 500, Some(10_000)));
    assert_eq!(lyrics, before);
    assert!(drag_line(&mut lyrics, Some(anchor), 0, -5_000, Some(10_000)));
    assert_eq!(lyrics[0].start_ms, Some(0));
}

#[test]
fn command_line_takes_four_paths_and_options() {
    let parsed = parse_args(&args(&[
        "song.wav", "lyrics.txt", "model.onnx", "out.lrc", "--language", "jp", "--vocabulary",
        "tok.json", "--generate-reading",
    ]))
    .unwrap();
    assert_eq!(parsed.audio, "song.wav");
    assert_eq!(parsed.lyrics, "lyrics.txt");
    assert_eq!(parsed.model, "model.onnx");
    assert_eq!(parsed.output, "out.lrc");
    assert_eq!(parsed.language, "jp");
    assert_eq!(parsed.vocabulary.as_deref(), Some("tok.json"));
    assert!(parsed.generate_reading);
    assert_eq!(parsed.reading, None);
    let defaults = parse_args(&args(&["a", "b", "c", "d"])).unwrap();
    assert_eq!(defaults.language, "en");
    assert!(!defaults.generate_reading);
}

#[test]
fn command_line_errors() {
    assert!(parse_args(&args(&["a", "b", "c"])).unwrap_err().starts_with("Usage: benzaiten-cli"));
    assert_eq!(
        parse_args(&args(&["a", "b", "c", "d", "--bogus"])).unwrap_err(),
        "unknown or incomplete option: --bogus"
    );
    assert_eq!(
        parse_args(&args(&["a", "b", "c", "d", "--language"])).unwrap_err(),
        "unknown or incomplete option: --language"
    );
    assert_eq!(
        parse_args(&args(&["a", "b", "c", "d", "--reading", "r.txt", "--generate-reading"]))
            .unwrap_err(),
        "--generate-reading and --reading cannot be used together"
    );
    let separator = parse_args(&args(&["a", "b", "c", "d", "--vocal-separator", "h.onnx"])).unwrap();
    assert_eq!(separator.vocal_separator.as_deref(), Some("h.onnx"));
}
