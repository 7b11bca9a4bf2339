//! Time display for the player and the lyric line active at a position.
use vstd::prelude::*;

use crate::domain::project::LyricLine;
use crate::text::{push_two_digits, string_from, two_digits};

verus! {

/// `mm:ss.cc` for a position in milliseconds.
pub open spec fn time_text(ms: nat) -> Seq<char> {
    two_digits(ms / 60_000) + ":"@ + two_digits((ms / 1000) % 60) + "."@ + two_digits(
        (ms % 1000) / 10,
    )
}

/// Formats a playback position as `mm:ss.cc`.
pub fn format_time(ms: u64) -> (s: String)
    ensures
        s@ == time_text(ms as nat),
{
    let mut out: Vec<char> = Vec::new();
    push_two_digits(&mut out, ms / 60_000);
    out.push(':');
    push_two_digits(&mut out, (ms / 1000) % 60);
    out.push('.');
    push_two_digits(&mut out, (ms % 1000) / 10);
    proof {
        reveal_strlit(":");
        reveal_strlit(".");
        assert(out@ == time_text(ms as nat));
    }
    string_from(&out)
}

/// The start time of the first line from `from` onwards that has one.
pub open spec fn next_start(lyrics: Seq<LyricLine>, from: int) -> Option<u64>
    decreases lyrics.len() - from,
{
    if from < 0 || from >= lyrics.len() {
        None
    } else if lyrics[from].start_ms.is_some() {
        lyrics[from].start_ms
    } else {
        next_start(lyrics, from + 1)
    }
}

/// Where line `index` ends for highlighting: its own end time, or else the
/// next start time set on a later line.
pub open spec fn effective_end(lyrics: Seq<LyricLine>, index: int) -> Option<u64> {
    match lyrics[index].end_ms {
        Some(e) => Some(e),
        None => next_start(lyrics, index + 1),
    }
}

/// Line `index` is playing at `position`: `start <= position < end`, with
/// no upper bound when the line has no effective end.
pub open spec fn is_active_at(lyrics: Seq<LyricLine>, index: int, position: u64) -> bool {
    match lyrics[index].start_ms {
        Some(start) => position >= start && match effective_end(lyrics, index) {
            Some(end) => position < end,
            None => true,
        },
        None => false,
    }
}

pub(crate) fn find_next_start(lyrics: &Vec<LyricLine>, from: usize) -> (r: Option<u64>)
    requires
        from <= lyrics@.len(),
    ensures
        r == next_start(lyrics@, from as int),
{
    let mut j = from;
    while j < lyrics.len()
        invariant
            from <= j <= lyrics@.len(),
            next_start(lyrics@, from as int) == next_start(lyrics@, j as int),
        decreases lyrics.len() - j,
    {
        if lyrics[j].start_ms.is_some() {
            return lyrics[j].start_ms;
        }
        j = j + 1;
    }
    None
}

/// The first line active at `position_ms` (see [`is_active_at`]), if any.
pub fn active_lyric_index(lyrics: &Vec<LyricLine>, position_ms: u64) -> (r: Option<usize>)
    ensures
        match r {
            Some(i) => i < lyrics@.len() && is_active_at(lyrics@, i as int, position_ms) && forall|
                j: int,
            | 0 <= j < i ==> !is_active_at(lyrics@, j, position_ms),
            None => forall|j: int| 0 <= j < lyrics@.len() ==> !is_active_at(lyrics@, j, position_ms),
        },
{
    let mut index: usize = 0;
    while index < lyrics.len()
        invariant
            index <= lyrics@.len(),
            forall|j: int| 0 <= j < index ==> !is_active_at(lyrics@, j, position_ms),
        decreases lyrics.len() - index,
    {
        if let Some(start) = lyrics[index].start_ms {
            let end = match lyrics[index].end_ms {
                Some(e) => Some(e),
                None => find_next_start(lyrics, index + 1),
            };
            let within = match end {
                Some(e) => position_ms < e,
                None => true,
            };
            if position_ms >= start && within {
                return Some(index);
            }
        }
        index = index + 1;
    }
    None
}

} // verus!
