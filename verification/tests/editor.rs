use benzaiten::domain::lyrics::{parse_lyrics, set_line_reading, ReadingSource, TimestampSource};
use benzaiten::ui::lyric_editor::{
    clear_timing, has_timing, move_line_to, set_end, set_line_start, set_start, shift_from,
    shift_line_start, shift_start,
};

#[test]
fn correction_clears_stale_confidence_and_invalid_end() {
    let mut line = parse_lyrics("歌詞").remove(0);
    line.end_ms = Some(200);
    line.confidence = Some(0.9f32.to_bits());
    set_start(&mut line, 500);
    assert_eq!(line.start_ms, Some(500));
    assert_eq!(line.end_ms, None);
    assert_eq!(line.confidence, None);
    assert_eq!(line.timestamp_source, Some(TimestampSource::Manual));
    shift_start(&mut line, -1000, Some(1000));
    assert_eq!(line.start_ms, Some(0));
    shift_start(&mut line, 5000, Some(1000));
    assert_eq!(line.start_ms, Some(1000));
}

#[test]
fn changing_a_line_start_does_not_touch_the_previous_line() {
    let mut lines = parse_lyrics("one\ntwo");
    lines[0].start_ms = Some(100);
    lines[0].end_ms = Some(500);
    lines[1].start_ms = Some(500);

    set_line_start(&mut lines, 1, 650);
    assert_eq!(lines[0].end_ms, Some(500));
    assert_eq!(lines[1].start_ms, Some(650));

    shift_line_start(&mut lines, 1, -50, Some(1_000));
    assert_eq!(lines[0].end_ms, Some(500));
    assert_eq!(lines[1].start_ms, Some(600));
}

#[test]
fn bulk_shift_preserves_spacing_and_clamps_as_one_group() {
    let mut lines = parse_lyrics("one\ntwo\nthree");
    for (line, start) in lines.iter_mut().zip([100, 400, 800]) {
        line.start_ms = Some(start);
        line.end_ms = Some(start + 100);
        line.confidence = Some(0.8f32.to_bits());
    }

    assert_eq!(shift_from(&mut lines, 1, 500, Some(1_000)), 100);
    assert_eq!(lines[0].start_ms, Some(100));
    assert_eq!(lines[0].end_ms, Some(200));
    assert_eq!(lines[1].start_ms, Some(500));
    assert_eq!(lines[2].start_ms, Some(900));
    assert_eq!(lines[2].end_ms, Some(1_000));
    assert_eq!(lines[1].confidence, None);
    assert_eq!(lines[2].timestamp_source, Some(TimestampSource::Manual));

    assert_eq!(shift_from(&mut lines, 1, -1_000, Some(1_000)), -500);
    assert_eq!(lines[1].start_ms, Some(0));
    assert_eq!(lines[2].start_ms, Some(400));
}

#[test]
fn timeline_move_preserves_length_and_clamps_to_audio() {
    let mut lines = parse_lyrics("one\ntwo");
    lines[0].start_ms = Some(1_000);
    lines[0].end_ms = Some(2_500);
    lines[0].confidence = Some(0.8f32.to_bits());

    move_line_to(&mut lines, 0, 9_000, Some(1_500), Some(10_000));

    assert_eq!(lines[0].start_ms, Some(8_500));
    assert_eq!(lines[0].end_ms, Some(10_000));
    assert_eq!(lines[0].confidence, None);
    assert_eq!(lines[0].timestamp_source, Some(TimestampSource::Manual));
}

#[test]
fn set_end_marks_the_line_manual() {
    let mut line = parse_lyrics("one").remove(0);
    line.start_ms = Some(100);
    line.confidence = Some(0.5f32.to_bits());
    set_end(&mut line, 900);
    assert_eq!(line.start_ms, Some(100));
    assert_eq!(line.end_ms, Some(900));
    assert_eq!(line.confidence, None);
    assert_eq!(line.timestamp_source, Some(TimestampSource::Manual));
}

#[test]
fn shifting_a_group_without_times_moves_nothing() {
    let mut lines = parse_lyrics("one\ntwo");
    assert_eq!(shift_from(&mut lines, 0, 500, Some(1_000)), 0);
    assert_eq!(lines[0].start_ms, None);
    assert_eq!(lines[1].start_ms, None);
}

#[test]
fn shifting_keeps_the_gaps_between_lines() {
    let mut lines = parse_lyrics("a\nb\nc");
    lines[0].start_ms = Some(1_000);
    lines[1].start_ms = Some(1_700);
    lines[2].start_ms = Some(3_100);
    let applied = shift_from(&mut lines, 0, -400, None);
    assert_eq!(applied, -400);
    assert_eq!(lines[1].start_ms.unwrap() - lines[0].start_ms.unwrap(), 700);
    assert_eq!(lines[2].start_ms.unwrap() - lines[1].start_ms.unwrap(), 1_400);
}

#[test]
fn moving_without_a_duration_keeps_the_requested_start() {
    let mut lines = parse_lyrics("one");
    lines[0].start_ms = Some(100);
    lines[0].end_ms = Some(600);
    move_line_to(&mut lines, 0, 9_000, Some(500), None);
    assert_eq!(lines[0].start_ms, Some(9_000));
    assert_eq!(lines[0].end_ms, Some(9_500));
}

#[test]
fn changing_the_audio_clears_every_timing_but_keeps_the_text() {
    let mut lines = parse_lyrics("one\ntwo");
    assert!(!has_timing(&lines));
    set_line_start(&mut lines, 1, 1_500);
    lines[1].end_ms = Some(2_000);
    lines[1].confidence = Some(0.5f32.to_bits());
    assert!(has_timing(&lines));
    clear_timing(&mut lines);
    assert!(!has_timing(&lines));
    for (index, line) in lines.iter().enumerate() {
        assert_eq!(line.id, index);
        assert_eq!(line.start_ms, None);
        assert_eq!(line.end_ms, None);
        assert_eq!(line.confidence, None);
        assert_eq!(line.timestamp_source, None);
    }
    assert_eq!(lines[1].original_text, "two");
}

#[test]
fn editing_a_reading_marks_it_manual_and_an_empty_edit_clears_it() {
    let mut lines = parse_lyrics("one\ntwo");
    set_line_reading(&mut lines, 1, "ツー");
    assert_eq!(lines[1].reading_text.as_deref(), Some("ツー"));
    assert_eq!(lines[1].reading_source, Some(ReadingSource::Manual));
    assert_eq!(lines[0].reading_text, None);
    set_line_reading(&mut lines, 1, "");
    assert_eq!(lines[1].reading_text, None);
    assert_eq!(lines[1].reading_source, None);
    set_line_reading(&mut lines, 5, "x");
    assert_eq!(lines.len(), 2);
}
