//! Timeline drag state, the actions the timeline reports, and ruler labels.
use vstd::prelude::*;

use super::lyric_editor::{line_moved, move_line_to, sat_add_signed, saturating_add_signed};
use super::player::{effective_end, find_next_start};
use crate::domain::project::LyricLine;
use crate::text::{push_two_digits, string_from, two_digits};

verus! {

/// The block being dragged and where it was when the drag began.
#[derive(Debug, Clone, Copy)]
pub struct DragAnchor {
    pub index: usize,
    pub start_ms: u64,
    pub length_ms: Option<u64>,
}

/// What the user did on the timeline.
#[derive(Debug, Clone, Copy)]
pub enum TimelineAction {
    Select(usize),
    Seek(u64),
    BeginDrag(usize),
    Drag { index: usize, delta_ms: i64 },
    EndDrag,
}

/// `mm:ss` for a ruler tick at `ms` milliseconds.
pub open spec fn ruler_text(ms: nat) -> Seq<char> {
    two_digits((ms / 1000) / 60) + ":"@ + two_digits((ms / 1000) % 60)
}

/// Formats a ruler tick time as `mm:ss`.
pub fn format_ruler_time(milliseconds: u64) -> (s: String)
    ensures
        s@ == ruler_text(milliseconds as nat),
{
    let seconds = milliseconds / 1000;
    let mut out: Vec<char> = Vec::new();
    push_two_digits(&mut out, seconds / 60);
    out.push(':');
    push_two_digits(&mut out, seconds % 60);
    proof {
        reveal_strlit(":");
        assert(out@ == ruler_text(milliseconds as nat));
    }
    string_from(&out)
}

/// The anchor of a drag that begins on line `index`: the line's start and
/// its length up to its effective end (see [`effective_end`]), saturating
/// at zero. A missing line or one without a start cannot be dragged.
pub fn begin_drag(lyrics: &Vec<LyricLine>, index: usize) -> (r: Option<DragAnchor>)
    ensures
        match r {
            Some(anchor) => {
                &&& index < lyrics@.len()
                &&& lyrics@[index as int].start_ms == Some(anchor.start_ms)
                &&& anchor.index == index
                &&& anchor.length_ms == match effective_end(lyrics@, index as int) {
                    Some(end) => Some(
                        if end >= anchor.start_ms {
                            (end - anchor.start_ms) as u64
                        } else {
                            0
                        },
                    ),
                    None => None,
                }
            },
            None => index >= lyrics@.len() || lyrics@[index as int].start_ms is None,
        },
{
    if index >= lyrics.len() {
        return None;
    }
    match lyrics[index].start_ms {
        None => None,
        Some(start_ms) => {
            let end = match lyrics[index].end_ms {
                Some(e) => Some(e),
                None => find_next_start(lyrics, index + 1),
            };
            let length_ms = match end {
                Some(e) => Some(
                    if e >= start_ms {
                        e - start_ms
                    } else {
                        0
                    },
                ),
                None => None,
            };
            Some(DragAnchor { index, start_ms, length_ms })
        },
    }
}

/// Drags line `index` by `delta_ms` from where its drag began: the block
/// moves to the anchored start plus the delta (saturating), keeping its
/// anchored length (see [`line_moved`]). A drag that began on another line,
/// or no drag at all, changes nothing. Returns whether the line moved.
pub fn drag_line(
    lyrics: &mut Vec<LyricLine>,
    anchor: Option<DragAnchor>,
    index: usize,
    delta_ms: i64,
    duration: Option<u64>,
) -> (moved: bool)
    ensures
        match anchor {
            Some(a) => if a.index == index {
                &&& moved
                &&& line_moved(
                    final(lyrics)@,
                    old(lyrics)@,
                    index,
                    sat_add_signed(a.start_ms, delta_ms),
                    a.length_ms,
                    duration,
                )
            } else {
                !moved && final(lyrics)@ == old(lyrics)@
            },
            None => !moved && final(lyrics)@ == old(lyrics)@,
        },
{
    match anchor {
        Some(a) => {
            if a.index == index {
                let start = saturating_add_signed(a.start_ms, delta_ms);
                move_line_to(lyrics, index, start, a.length_ms, duration);
                true
            } else {
                false
            }
        },
        None => false,
    }
}

} // verus!
