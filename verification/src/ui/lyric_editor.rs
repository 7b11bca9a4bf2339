//! Pure functions that move the start and end times of lyric lines. They
//! keep no GUI state and only touch the lines they are given.
use vstd::prelude::*;

use crate::domain::lyrics::{LyricLine, TimestampSource};

verus! {

/// `u64::saturating_add_signed`.
pub open spec fn sat_add_signed(value: u64, delta: i64) -> u64 {
    if value + delta < 0 {
        0
    } else if value + delta > u64::MAX {
        u64::MAX
    } else {
        (value + delta) as u64
    }
}

/// `u64::saturating_add_signed`.
pub fn saturating_add_signed(value: u64, delta: i64) -> (r: u64)
    ensures
        r == sat_add_signed(value, delta),
{
    if delta >= 0 {
        let d = delta as u64;
        if value > u64::MAX - d {
            u64::MAX
        } else {
            value + d
        }
    } else {
        let magnitude: u64 = if delta == i64::MIN {
            9_223_372_036_854_775_808u64
        } else {
            (-delta) as u64
        };
        if value < magnitude {
            0
        } else {
            value - magnitude
        }
    }
}

/// `v` capped at `limit` when there is one.
pub open spec fn cap(v: u64, limit: Option<u64>) -> u64 {
    match limit {
        Some(end) => if v < end { v } else { end },
        None => v,
    }
}

/// `after` is `before` with a manual start `ms`: an end before `ms` is
/// dropped, the confidence is cleared and the source becomes manual.
pub open spec fn started_at(after: LyricLine, before: LyricLine, ms: u64) -> bool {
    &&& after.id == before.id
    &&& after.original_text == before.original_text
    &&& after.reading_text == before.reading_text
    &&& after.reading_source == before.reading_source
    &&& after.start_ms == Some(ms)
    &&& after.end_ms == (if before.end_ms matches Some(e) && e < ms {
        None
    } else {
        before.end_ms
    })
    &&& after.confidence.is_none()
    &&& after.timestamp_source == Some(TimestampSource::Manual)
}

/// Sets a line's start time. An end time that would now precede the start
/// is cleared to avoid a contradiction. The edit is manual, so the source
/// becomes `Manual` and the stale confidence is cleared.
pub fn set_start(line: &mut LyricLine, ms: u64)
    ensures
        started_at(*final(line), *old(line), ms),
{
    line.start_ms = Some(ms);
    if let Some(end) = line.end_ms {
        if end < ms {
            line.end_ms = None;
        }
    }
    line.timestamp_source = Some(TimestampSource::Manual);
    line.confidence = None;
}

/// Sets a line's end time explicitly (e.g. by dragging the right edge of a
/// timeline block).
pub fn set_end(line: &mut LyricLine, ms: u64)
    ensures
        final(line).end_ms == Some(ms),
        final(line).confidence.is_none(),
        final(line).timestamp_source == Some(TimestampSource::Manual),
        final(line).id == old(line).id,
        final(line).original_text == old(line).original_text,
        final(line).reading_text == old(line).reading_text,
        final(line).reading_source == old(line).reading_source,
        final(line).start_ms == old(line).start_ms,
{
    line.end_ms = Some(ms);
    line.timestamp_source = Some(TimestampSource::Manual);
    line.confidence = None;
}

/// Moves a line's start by `delta`, capped at `duration` when known. A
/// line without a start time is left unchanged.
pub fn shift_start(line: &mut LyricLine, delta: i64, duration: Option<u64>)
    ensures
        match old(line).start_ms {
            Some(ms) => started_at(*final(line), *old(line), cap(sat_add_signed(ms, delta), duration)),
            None => *final(line) == *old(line),
        },
{
    if let Some(ms) = line.start_ms {
        let shifted = saturating_add_signed(ms, delta);
        let target = match duration {
            Some(end) => if shifted < end { shifted } else { end },
            None => shifted,
        };
        set_start(line, target);
    }
}

/// Sets the start of the line at position `index` and of no other line.
///
/// The end time the previous line already had stays as it is even when a
/// gap or overlap results: moving one boundary must not silently rewrite
/// the neighbouring one. An index past the end changes nothing.
pub fn set_line_start(lines: &mut Vec<LyricLine>, index: usize, ms: u64)
    ensures
        final(lines)@.len() == old(lines)@.len(),
        index < old(lines)@.len() ==> started_at(final(lines)@[index as int], old(lines)@[index as int], ms),
        forall|k: int| 0 <= k < old(lines)@.len() && k != index ==> #[trigger] final(lines)@[k] == old(lines)@[k],
{
    if index < lines.len() {
        let mut line = lines[index].duplicate();
        set_start(&mut line, ms);
        lines.set(index, line);
    }
}

/// Moves the start of line `index` by `delta` (capped at `duration`), via
/// [`set_line_start`], so no other line changes.
pub fn shift_line_start(lines: &mut Vec<LyricLine>, index: usize, delta: i64, duration: Option<u64>)
    ensures
        final(lines)@.len() == old(lines)@.len(),
        forall|k: int| 0 <= k < old(lines)@.len() && k != index ==> #[trigger] final(lines)@[k] == old(lines)@[k],
        index < old(lines)@.len() ==> match old(lines)@[index as int].start_ms {
            Some(ms) => started_at(
                final(lines)@[index as int],
                old(lines)@[index as int],
                cap(sat_add_signed(ms, delta), duration),
            ),
            None => final(lines)@[index as int] == old(lines)@[index as int],
        },
{
    if index >= lines.len() {
        return;
    }
    let current = match lines[index].start_ms {
        Some(ms) => ms,
        None => {
            return;
        },
    };
    let shifted = saturating_add_signed(current, delta);
    let target = match duration {
        Some(end) => if shifted < end { shifted } else { end },
        None => shifted,
    };
    set_line_start(lines, index, target);
}

/// The smaller of an optional minimum and a value.
pub open spec fn opt_min(m: Option<u64>, v: Option<u64>) -> Option<u64> {
    match (m, v) {
        (Some(a), Some(b)) => Some(if a < b { a } else { b }),
        (Some(a), None) => Some(a),
        (None, b) => b,
    }
}

/// The larger of an optional maximum and a value.
pub open spec fn opt_max(m: Option<u64>, v: Option<u64>) -> Option<u64> {
    match (m, v) {
        (Some(a), Some(b)) => Some(if a < b { b } else { a }),
        (Some(a), None) => Some(a),
        (None, b) => b,
    }
}

/// The earliest start or end time among `lines`.
pub open spec fn earliest_time(lines: Seq<LyricLine>) -> Option<u64>
    decreases lines.len(),
{
    if lines.len() == 0 {
        None
    } else {
        opt_min(opt_min(earliest_time(lines.drop_last()), lines.last().start_ms), lines.last().end_ms)
    }
}

/// The latest start or end time among `lines`.
pub open spec fn latest_time(lines: Seq<LyricLine>) -> Option<u64>
    decreases lines.len(),
{
    if lines.len() == 0 {
        None
    } else {
        opt_max(opt_max(latest_time(lines.drop_last()), lines.last().start_ms), lines.last().end_ms)
    }
}

/// The shift actually applied by [`shift_from`]: the requested one clamped
/// so that no time falls below zero or (when the duration is known) past
/// the duration. Zero when the tail holds no time at all.
pub open spec fn effective_shift(
    lines: Seq<LyricLine>,
    index: int,
    requested: i64,
    duration: Option<u64>,
) -> int {
    if index > lines.len() {
        0
    } else {
        let tail = lines.skip(index);
        match (earliest_time(tail), latest_time(tail)) {
            (Some(minimum), Some(maximum)) => {
                let lower: int = -(if minimum > i64::MAX { i64::MAX as int } else { minimum as int });
                let upper: int = match duration {
                    Some(end) => {
                        let room: int = if end > maximum { end - maximum } else { 0 };
                        if room > i64::MAX { i64::MAX as int } else { room }
                    },
                    None => i64::MAX as int,
                };
                if requested < lower {
                    lower
                } else if requested > upper {
                    upper
                } else {
                    requested as int
                }
            },
            _ => 0,
        }
    }
}

/// `after` is `before` with both times moved by `delta`; a line that has a
/// start becomes manual and loses its confidence.
pub open spec fn shifted_by(after: LyricLine, before: LyricLine, delta: i64) -> bool {
    &&& after.id == before.id
    &&& after.original_text == before.original_text
    &&& after.reading_text == before.reading_text
    &&& after.reading_source == before.reading_source
    &&& after.start_ms == (match before.start_ms {
        Some(v) => Some(sat_add_signed(v, delta)),
        None => None,
    })
    &&& after.end_ms == (match before.end_ms {
        Some(v) => Some(sat_add_signed(v, delta)),
        None => None,
    })
    &&& if before.start_ms.is_some() {
        after.timestamp_source == Some(TimestampSource::Manual) && after.confidence.is_none()
    } else {
        after.timestamp_source == before.timestamp_source && after.confidence == before.confidence
    }
}

/// `after` is `before` with every line from `index` on shifted by
/// `applied` (see [`shifted_by`]) and the lines before it unchanged;
/// nothing changes when the shift is zero.
pub open spec fn group_shifted(after: Seq<LyricLine>, before: Seq<LyricLine>, index: int, applied: i64) -> bool {
    &&& after.len() == before.len()
    &&& forall|k: int| 0 <= k < before.len() && (k < index || applied == 0) ==> #[trigger] after[k] == before[k]
    &&& forall|k: int| index <= k < before.len() && applied != 0 ==> shifted_by(#[trigger] after[k], before[k], applied)
}

proof fn lemma_time_prefix(lines: Seq<LyricLine>, k: int)
    requires
        0 <= k < lines.len(),
    ensures
        earliest_time(lines.take(k + 1)) == opt_min(
            opt_min(earliest_time(lines.take(k)), lines[k].start_ms),
            lines[k].end_ms,
        ),
        latest_time(lines.take(k + 1)) == opt_max(
            opt_max(latest_time(lines.take(k)), lines[k].start_ms),
            lines[k].end_ms,
        ),
{
    assert(lines.take(k + 1).drop_last() == lines.take(k));
    assert(lines.take(k + 1).last() == lines[k]);
}

/// Moves every time from line `index` onwards by one common effective
/// shift and returns that shift.
///
/// The shift is reduced so that no time goes below zero or past the audio
/// duration; moving all lines by the same amount keeps the spacing inside
/// `index..`. Lines before `index` are never touched.
pub fn shift_from(
    lines: &mut Vec<LyricLine>,
    index: usize,
    requested_delta: i64,
    duration: Option<u64>,
) -> (applied: i64)
    ensures
        applied == effective_shift(old(lines)@, index as int, requested_delta, duration),
        group_shifted(final(lines)@, old(lines)@, index as int, applied),
{
    let ghost before = lines@;
    if index > lines.len() {
        return 0;
    }
    let ghost tail = before.skip(index as int);
    let mut minimum: Option<u64> = None;
    let mut maximum: Option<u64> = None;
    let mut k = index;
    assert(tail.take(0) == Seq::<LyricLine>::empty());
    while k < lines.len()
        invariant
            index <= k <= lines@.len(),
            lines@ == before,
            tail == before.skip(index as int),
            minimum == earliest_time(tail.take(k - index)),
            maximum == latest_time(tail.take(k - index)),
        decreases lines.len() - k,
    {
        proof {
            lemma_time_prefix(tail, k - index);
        }
        let line = &lines[k];
        minimum = match (minimum, line.start_ms) {
            (Some(a), Some(b)) => Some(if a < b { a } else { b }),
            (Some(a), None) => Some(a),
            (None, b) => b,
        };
        minimum = match (minimum, line.end_ms) {
            (Some(a), Some(b)) => Some(if a < b { a } else { b }),
            (Some(a), None) => Some(a),
            (None, b) => b,
        };
        maximum = match (maximum, line.start_ms) {
            (Some(a), Some(b)) => Some(if a < b { b } else { a }),
            (Some(a), None) => Some(a),
            (None, b) => b,
        };
        maximum = match (maximum, line.end_ms) {
            (Some(a), Some(b)) => Some(if a < b { b } else { a }),
            (Some(a), None) => Some(a),
            (None, b) => b,
        };
        k = k + 1;
    }
    assert(tail.take(tail.len() as int) == tail);
    let (low, high) = match (minimum, maximum) {
        (Some(a), Some(b)) => (a, b),
        _ => {
            return 0;
        },
    };
    let lower_bound: i64 = if low > i64::MAX as u64 { -i64::MAX } else { -(low as i64) };
    let upper_bound: i64 = match duration {
        Some(end) => {
            let room: u64 = if end > high { end - high } else { 0 };
            if room > i64::MAX as u64 { i64::MAX } else { room as i64 }
        },
        None => i64::MAX,
    };
    let delta: i64 = if requested_delta < lower_bound {
        lower_bound
    } else if requested_delta > upper_bound {
        upper_bound
    } else {
        requested_delta
    };
    if delta == 0 {
        return 0;
    }
    let mut i = index;
    while i < lines.len()
        invariant
            index <= i <= lines@.len(),
            lines@.len() == before.len(),
            forall|k: int| 0 <= k < before.len() && (k < index || i <= k) ==> #[trigger] lines@[k] == before[k],
            forall|k: int| index <= k < i ==> shifted_by(#[trigger] lines@[k], before[k], delta),
        decreases lines.len() - i,
    {
        let mut line = lines[i].duplicate();
        line.start_ms = match line.start_ms {
            Some(v) => Some(saturating_add_signed(v, delta)),
            None => None,
        };
        line.end_ms = match line.end_ms {
            Some(v) => Some(saturating_add_signed(v, delta)),
            None => None,
        };
        if line.start_ms.is_some() {
            line.timestamp_source = Some(TimestampSource::Manual);
            line.confidence = None;
        }
        lines.set(i, line);
        i = i + 1;
    }
    delta
}

/// `after` is `before` with line `index` moved to `requested_start`,
/// keeping `block_length`: the start is capped so that the block ends by
/// the audio duration when both are known; the edit is manual. Other lines,
/// and everything when `index` is out of range, are unchanged.
pub open spec fn line_moved(
    after: Seq<LyricLine>,
    before: Seq<LyricLine>,
    index: usize,
    requested_start: u64,
    block_length: Option<u64>,
    audio_duration: Option<u64>,
) -> bool {
    &&& after.len() == before.len()
    &&& forall|k: int| 0 <= k < before.len() && k != index ==> #[trigger] after[k] == before[k]
    &&& index >= before.len() ==> after == before
    &&& index < before.len() ==> {
        let maximum_start: u64 = match (audio_duration, block_length) {
            (Some(d), Some(l)) => if d >= l { (d - l) as u64 } else { 0 },
            (Some(d), None) => d,
            (None, _) => u64::MAX,
        };
        let start: u64 = if requested_start < maximum_start { requested_start } else { maximum_start };
        let moved = after[index as int];
        let prior = before[index as int];
        &&& moved.start_ms == Some(start)
        &&& moved.end_ms == (match block_length {
            Some(l) => Some(if start + l > u64::MAX { u64::MAX } else { (start + l) as u64 }),
            None => if prior.end_ms matches Some(e) && e < start { None } else { prior.end_ms },
        })
        &&& moved.confidence.is_none()
        &&& moved.timestamp_source == Some(TimestampSource::Manual)
        &&& moved.id == prior.id
        &&& moved.original_text == prior.original_text
        &&& moved.reading_text == prior.reading_text
        &&& moved.reading_source == prior.reading_source
    }
}

/// Moves a lyric block to the absolute start `requested_start`, keeping
/// its length (dragging a whole block on the timeline). The start is capped
/// so that the block ends by the audio duration when both are known.
pub fn move_line_to(
    lines: &mut Vec<LyricLine>,
    index: usize,
    requested_start: u64,
    block_length: Option<u64>,
    audio_duration: Option<u64>,
)
    ensures
        line_moved(final(lines)@, old(lines)@, index, requested_start, block_length, audio_duration),
{
    if index >= lines.len() {
        return;
    }
    let maximum_start = match (audio_duration, block_length) {
        (Some(duration), Some(length)) => if duration >= length { duration - length } else { 0 },
        (Some(duration), None) => duration,
        (None, _) => u64::MAX,
    };
    let start = if requested_start < maximum_start { requested_start } else { maximum_start };
    set_line_start(lines, index, start);
    if let Some(length) = block_length {
        let mut line = lines[index].duplicate();
        line.end_ms = Some(if start > u64::MAX - length { u64::MAX } else { start + length });
        lines.set(index, line);
    }
}

proof fn lemma_times_within(lines: Seq<LyricLine>, k: int)
    requires
        0 <= k < lines.len(),
    ensures
        lines[k].start_ms is Some ==> earliest_time(lines) is Some && earliest_time(lines)->0
            <= lines[k].start_ms->0 && latest_time(lines) is Some && lines[k].start_ms->0
            <= latest_time(lines)->0,
        lines[k].end_ms is Some ==> earliest_time(lines) is Some && earliest_time(lines)->0
            <= lines[k].end_ms->0 && latest_time(lines) is Some && lines[k].end_ms->0
            <= latest_time(lines)->0,
    decreases lines.len(),
{
    if k < lines.len() - 1 {
        lemma_times_within(lines.drop_last(), k);
        assert(lines.drop_last()[k] == lines[k]);
    }
}

proof fn lemma_shift_is_exact(tail: Seq<LyricLine>, requested: i64, duration: Option<u64>, applied: i64, t: u64)
    requires
        applied == effective_shift(tail, 0, requested, duration),
        earliest_time(tail) is Some && earliest_time(tail)->0 <= t,
        latest_time(tail) is Some && t <= latest_time(tail)->0,
        duration is Some || latest_time(tail)->0 <= u64::MAX - i64::MAX,
    ensures
        0 <= t + applied <= u64::MAX,
        sat_add_signed(t, applied) == t + applied,
{
    assert(tail.skip(0) == tail);
}

/// Shifting a group of lines keeps their spacing: when the audio duration
/// is known (or no time is within `i64::MAX` of the largest representable
/// time), every start and end time from `index` on moves by exactly the
/// applied shift, so the distance between any two of them is unchanged.
pub proof fn shift_keeps_spacing(
    before: Seq<LyricLine>,
    after: Seq<LyricLine>,
    index: int,
    requested: i64,
    duration: Option<u64>,
    applied: i64,
)
    requires
        0 <= index <= before.len(),
        applied == effective_shift(before, index, requested, duration),
        group_shifted(after, before, index, applied),
        duration is Some || (latest_time(before.skip(index)) is Some && latest_time(
            before.skip(index),
        )->0 <= u64::MAX - i64::MAX),
    ensures
        forall|k: int|
            index <= k < before.len() && (#[trigger] before[k]).start_ms is Some ==> after[k].start_ms
                == Some((before[k].start_ms->0 + applied) as u64),
        forall|k: int|
            index <= k < before.len() && (#[trigger] before[k]).end_ms is Some ==> after[k].end_ms
                == Some((before[k].end_ms->0 + applied) as u64),
        forall|j: int, k: int|
            index <= j < before.len() && index <= k < before.len() && (#[trigger] before[j]).start_ms
                is Some && (#[trigger] before[k]).start_ms is Some ==> after[k].start_ms->0
                - after[j].start_ms->0 == before[k].start_ms->0 - before[j].start_ms->0,
{
    let tail = before.skip(index);
    assert(tail.skip(0) == tail);
    assert forall|k: int| index <= k < before.len() implies {
        &&& (#[trigger] before[k]).start_ms is Some ==> after[k].start_ms == Some(
            (before[k].start_ms->0 + applied) as u64,
        ) && 0 <= before[k].start_ms->0 + applied <= u64::MAX
        &&& before[k].end_ms is Some ==> after[k].end_ms == Some((before[k].end_ms->0 + applied) as u64)
    } by {
        assert(tail[k - index] == before[k]);
        lemma_times_within(tail, k - index);
        if let Some(t) = before[k].start_ms {
            lemma_shift_is_exact(tail, requested, duration, applied, t);
        }
        if let Some(t) = before[k].end_ms {
            lemma_shift_is_exact(tail, requested, duration, applied, t);
        }
    }
}

/// Some line has a start time.
pub open spec fn any_timed(lines: Seq<LyricLine>) -> bool {
    exists|k: int| 0 <= k < lines.len() && (#[trigger] lines[k]).start_ms.is_some()
}

/// Whether any line has a start time, which a change of audio file would
/// discard.
pub fn has_timing(lines: &Vec<LyricLine>) -> (r: bool)
    ensures
        r == any_timed(lines@),
{
    let mut k: usize = 0;
    while k < lines.len()
        invariant
            k <= lines@.len(),
            forall|j: int| 0 <= j < k ==> (#[trigger] lines@[j]).start_ms.is_none(),
        decreases lines.len() - k,
    {
        if lines[k].start_ms.is_some() {
            return true;
        }
        k = k + 1;
    }
    false
}

/// `after` is `before` with its timing cleared: no start, end, confidence
/// or timing source, and everything else kept.
pub open spec fn timing_cleared(after: LyricLine, before: LyricLine) -> bool {
    &&& after.id == before.id
    &&& after.original_text == before.original_text
    &&& after.reading_text == before.reading_text
    &&& after.reading_source == before.reading_source
    &&& after.start_ms.is_none()
    &&& after.end_ms.is_none()
    &&& after.confidence.is_none()
    &&& after.timestamp_source.is_none()
}

/// Clears every line's timing, as a new audio file invalidates it.
pub fn clear_timing(lines: &mut Vec<LyricLine>)
    ensures
        final(lines)@.len() == old(lines)@.len(),
        forall|k: int| 0 <= k < old(lines)@.len() ==> timing_cleared(#[trigger] final(lines)@[k], old(lines)@[k]),
{
    let ghost before = lines@;
    let mut k: usize = 0;
    while k < lines.len()
        invariant
            k <= lines@.len(),
            lines@.len() == before.len(),
            before == old(lines)@,
            forall|j: int| 0 <= j < k ==> timing_cleared(#[trigger] lines@[j], before[j]),
            forall|j: int| k <= j < lines@.len() ==> #[trigger] lines@[j] == before[j],
        decreases lines.len() - k,
    {
        let mut line = lines[k].duplicate();
        line.start_ms = None;
        line.end_ms = None;
        line.confidence = None;
        line.timestamp_source = None;
        lines.set(k, line);
        proof {
            assert forall|j: int| 0 <= j < k implies timing_cleared(#[trigger] lines@[j], before[j]) by {}
        }
        k = k + 1;
    }
}

} // verus!
