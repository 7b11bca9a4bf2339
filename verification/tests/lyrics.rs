use benzaiten::domain::lyrics::{apply_readings, merge_original_lyrics, parse_lyrics, ReadingSource};
use benzaiten::domain::project::TimestampSource;
use benzaiten::ui::player::{active_lyric_index, format_time};
use benzaiten::ui::timeline::format_ruler_time;

#[test]
fn applies_readings_with_matching_blank_rows() {
    let mut lyrics = parse_lyrics("Hello\n\nWorld\n");
    let count = apply_readings(&mut lyrics, "ハロー\n\nワールド").unwrap();

    assert_eq!(count, 2);
    assert_eq!(lyrics[0].reading_text.as_deref(), Some("ハロー"));
    assert_eq!(lyrics[1].reading_text, None);
    assert_eq!(lyrics[2].reading_text.as_deref(), Some("ワールド"));
    assert_eq!(lyrics[2].reading_source, Some(ReadingSource::Manual));
}

#[test]
fn allows_omitting_blank_stanza_rows() {
    let mut lyrics = parse_lyrics("Hello\n\nWorld");
    apply_readings(&mut lyrics, "ハロー\nワールド").unwrap();

    assert_eq!(lyrics[0].reading_text.as_deref(), Some("ハロー"));
    assert_eq!(lyrics[1].reading_text, None);
    assert_eq!(lyrics[2].reading_text.as_deref(), Some("ワールド"));
}

#[test]
fn rejects_readings_with_a_different_line_count() {
    let mut lyrics = parse_lyrics("Hello\nWorld");
    let error = apply_readings(&mut lyrics, "ハロー").unwrap_err();

    assert!(error.contains("行数が一致しません"));
    assert!(lyrics.iter().all(|line| line.reading_text.is_none()));
}

#[test]
fn highlight_uses_end_or_next_line_start() {
    let mut lyrics = parse_lyrics("one\ntwo\nthree");
    lyrics[0].start_ms = Some(1_000);
    lyrics[0].end_ms = Some(2_000);
    lyrics[1].start_ms = Some(3_000);
    lyrics[2].start_ms = Some(5_000);

    assert_eq!(active_lyric_index(&lyrics, 999), None);
    assert_eq!(active_lyric_index(&lyrics, 1_500), Some(0));
    assert_eq!(active_lyric_index(&lyrics, 2_500), None);
    assert_eq!(active_lyric_index(&lyrics, 4_000), Some(1));
    assert_eq!(active_lyric_index(&lyrics, 6_000), Some(2));
}

#[test]
fn lyric_text_edit_preserves_matching_line_data_after_insertion() {
    let mut lyrics = parse_lyrics("one\ntwo");
    lyrics[0].start_ms = Some(1_000);
    lyrics[0].reading_text = Some("ワン".into());
    lyrics[0].reading_source = Some(ReadingSource::Manual);
    lyrics[1].start_ms = Some(2_000);
    lyrics[1].timestamp_source = Some(TimestampSource::ForcedAlignment);

    let merged = merge_original_lyrics(lyrics, "intro\none\ntwo");

    assert_eq!(merged[0].start_ms, None);
    assert_eq!(merged[1].start_ms, Some(1_000));
    assert_eq!(merged[1].reading_text.as_deref(), Some("ワン"));
    assert_eq!(merged[2].start_ms, Some(2_000));
    assert_eq!(
        merged[2].timestamp_source,
        Some(TimestampSource::ForcedAlignment)
    );

    let changed = merge_original_lyrics(merged, "intro\none\nchanged");
    assert_eq!(changed[1].start_ms, Some(1_000));
    assert_eq!(changed[2].start_ms, None);
}

#[test]
fn parsed_lines_are_numbered_and_untimed() {
    let lines = parse_lyrics("a\r\nb");
    assert_eq!(lines.len(), 2);
    assert_eq!(lines[1].id, 1);
    assert_eq!(lines[1].original_text, "b");
    assert_eq!(lines[0].original_text, "a");
    assert!(lines.iter().all(|l| l.start_ms.is_none() && l.reading_text.is_none()));
}

#[test]
fn times_are_formatted_for_the_player_and_the_ruler() {
    assert_eq!(format_time(61_234), "01:01.23");
    assert_eq!(format_time(0), "00:00.00");
    assert_eq!(format_time(6_000_000), "100:00.00");
    assert_eq!(format_ruler_time(61_234), "01:01");
    assert_eq!(format_ruler_time(3_599_999), "59:59");
}

#[test]
fn crlf_and_byte_order_mark_parse_like_plain_lf() {
    let lf = parse_lyrics("first\nsecond\n\nthird");
    let crlf = parse_lyrics("first\r\nsecond\r\n\r\nthird");
    let bom = parse_lyrics("\u{feff}first\nsecond\n\nthird");
    assert_eq!(lf.len(), 4);
    assert_eq!(lf, crlf);
    assert_eq!(lf, bom);
    for (index, line) in lf.iter().enumerate() {
        assert_eq!(line.id, index);
        assert_eq!(line.reading_text, None);
        assert_eq!(line.start_ms, None);
        assert_eq!(line.end_ms, None);
        assert_eq!(line.confidence, None);
        assert_eq!(line.timestamp_source, None);
    }
    assert_eq!(lf[2].original_text, "");
    assert_eq!(lf[3].original_text, "third");
}
