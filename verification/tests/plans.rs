use benzaiten::audio::vocal_separation::{
    plan_separation_chunks, SeparationChunk, HOP_SAMPLES, SEGMENT_SAMPLES,
};
use benzaiten::forced_alignment::model::{plan_windows, Window};

const SAMPLE_RATE: usize = 16_000;
const WINDOW_SAMPLES: usize = 20 * SAMPLE_RATE;
const STRIDE_SAMPLES: usize = 15 * SAMPLE_RATE;
const CONTEXT_SAMPLES: usize = (WINDOW_SAMPLES - STRIDE_SAMPLES) / 2;

fn assert_tiles_without_gaps(total_samples: usize, windows: &[Window]) {
    let mut cursor = 0_usize;
    for window in windows {
        let kept_start = window.start + window.left_trim;
        let kept_end = window.end - window.right_trim;
        assert_eq!(
            kept_start, cursor,
            "gap or overlap before window {window:?}"
        );
        assert!(kept_end >= kept_start);
        cursor = kept_end;
    }
    assert_eq!(cursor, total_samples, "coverage did not reach the end");
}

#[test]
fn single_short_track_yields_one_zero_padded_chunk() {
    let chunks = plan_separation_chunks(1_000, SEGMENT_SAMPLES, HOP_SAMPLES);
    assert_eq!(
        chunks,
        vec![SeparationChunk {
            start: 0,
            end: SEGMENT_SAMPLES,
        }]
    );
}

#[test]
fn empty_audio_has_no_chunks() {
    assert!(plan_separation_chunks(0, SEGMENT_SAMPLES, HOP_SAMPLES).is_empty());
}

#[test]
fn chunks_cover_a_long_track_without_gaps() {
    for total_samples in [
        SEGMENT_SAMPLES - 1,
        SEGMENT_SAMPLES,
        SEGMENT_SAMPLES + 1,
        SEGMENT_SAMPLES * 2,
        SEGMENT_SAMPLES * 2 + HOP_SAMPLES / 3,
        3 * 60 * 44_100 + 37 * 44_100,
    ] {
        let chunks = plan_separation_chunks(total_samples, SEGMENT_SAMPLES, HOP_SAMPLES);
        assert!(
            !chunks.is_empty(),
            "no chunks for total_samples={total_samples}"
        );
        let mut covered = vec![false; total_samples];
        for chunk in &chunks {
            let end = chunk.end.min(total_samples);
            for value in covered.iter_mut().take(end).skip(chunk.start) {
                *value = true;
            }
        }
        assert!(
            covered.iter().all(|&value| value),
            "gap found for total_samples={total_samples}"
        );
    }
}

#[test]
fn chunks_start_every_hop_and_keep_the_segment_length() {
    let total = SEGMENT_SAMPLES * 2 + 7;
    let chunks = plan_separation_chunks(total, SEGMENT_SAMPLES, HOP_SAMPLES);
    let last = chunks.len() - 1;
    for (k, chunk) in chunks.iter().enumerate().take(last) {
        assert_eq!(chunk.start, k * HOP_SAMPLES);
        assert_eq!(chunk.end, chunk.start + SEGMENT_SAMPLES);
    }
    assert_eq!(chunks[last].end, total);
    assert_eq!(chunks[last].start, total - SEGMENT_SAMPLES);
}

#[test]
fn single_short_window_is_not_trimmed() {
    let windows = plan_windows(1_000, WINDOW_SAMPLES, STRIDE_SAMPLES, CONTEXT_SAMPLES);
    assert_eq!(
        windows,
        vec![Window {
            start: 0,
            end: 1_000,
            left_trim: 0,
            right_trim: 0,
        }]
    );
}

#[test]
fn empty_audio_has_no_windows() {
    assert!(plan_windows(0, WINDOW_SAMPLES, STRIDE_SAMPLES, CONTEXT_SAMPLES).is_empty());
}

#[test]
fn overlapping_windows_tile_a_long_track_without_gaps() {
    for total_samples in [
        WINDOW_SAMPLES - 1,
        WINDOW_SAMPLES,
        WINDOW_SAMPLES + 1,
        WINDOW_SAMPLES * 2,
        WINDOW_SAMPLES * 2 + STRIDE_SAMPLES / 3,
        3 * 60 * SAMPLE_RATE + 37 * SAMPLE_RATE,
    ] {
        let windows = plan_windows(
            total_samples,
            WINDOW_SAMPLES,
            STRIDE_SAMPLES,
            CONTEXT_SAMPLES,
        );
        assert!(!windows.is_empty());
        assert_tiles_without_gaps(total_samples, &windows);
    }
}

#[test]
fn only_the_first_and_last_window_keep_an_untrimmed_edge() {
    let total_samples = 3 * WINDOW_SAMPLES;
    let windows = plan_windows(
        total_samples,
        WINDOW_SAMPLES,
        STRIDE_SAMPLES,
        CONTEXT_SAMPLES,
    );
    assert_eq!(windows.first().unwrap().left_trim, 0);
    assert_eq!(windows.last().unwrap().right_trim, 0);
    for window in &windows[1..windows.len() - 1] {
        assert_eq!(window.left_trim, CONTEXT_SAMPLES);
        assert_eq!(window.right_trim, CONTEXT_SAMPLES);
    }
}

#[test]
fn a_stride_longer_than_the_window_is_accepted_when_it_stays_inside_the_audio() {
    // windows of 10 every 15 samples over 25 samples: 0..10 and 15..25
    let windows = plan_windows(25, 10, 15, 2);
    assert_eq!(
        windows,
        vec![
            Window { start: 0, end: 10, left_trim: 0, right_trim: 2 },
            Window { start: 15, end: 25, left_trim: 2, right_trim: 0 },
        ]
    );
    // a zero stride is fine when one window covers everything
    assert_eq!(
        plan_windows(5, 10, 0, 2),
        vec![Window { start: 0, end: 5, left_trim: 0, right_trim: 0 }]
    );
}
