//! The shape of the CTC trellis (blank, token, blank, ..., blank) that the
//! Viterbi pass walks, and the checks its inputs must pass.
use vstd::prelude::*;

use crate::text::{chars_of, extend_str, push_decimal, string_from, decimal};

verus! {

/// Upper bound on the trace buffer (frames × states), so that extreme
/// audio and lyric lengths cannot exhaust memory.
pub const MAX_TRACE_CELLS: usize = 64_000_000;

/// The label of trellis state `state`: even states are blank, odd state
/// `2k + 1` is token `k`.
pub open spec fn label_of(state: int, tokens: Seq<usize>, blank: usize) -> usize {
    if state % 2 == 0 {
        blank
    } else {
        tokens[state / 2]
    }
}

/// The label (blank or token id) a trellis state stands for.
pub fn state_label(state: usize, tokens: &Vec<usize>, blank: usize) -> (r: usize)
    requires
        state < 2 * tokens@.len() + 1,
    ensures
        r == label_of(state as int, tokens@, blank),
{
    if state % 2 == 0 {
        blank
    } else {
        tokens[state / 2]
    }
}

/// The message when the trace would need too many cells.
pub open spec fn too_many_cells_error(cells: nat) -> Seq<char> {
    "forced alignment needs "@ + decimal(cells) + " trace cells (limit "@ + decimal(MAX_TRACE_CELLS as nat) + ")"@
}

/// The first problem with the alignment inputs, if any: `frame_widths[f]`
/// is the vocabulary size of frame `f`.
pub open spec fn alignment_input_error(frame_widths: Seq<usize>, tokens: Seq<usize>, blank: usize) -> Option<Seq<char>> {
    let states = 2 * tokens.len() + 1;
    let cells = frame_widths.len() * states;
    if frame_widths.len() == 0 || tokens.len() == 0 {
        Some("forced alignment requires emissions and transcript tokens"@)
    } else if frame_widths[0] == 0 || exists|f: int| 0 <= f < frame_widths.len() && #[trigger] frame_widths[f] != frame_widths[0] {
        Some("acoustic emissions have inconsistent vocabulary dimensions"@)
    } else if blank >= frame_widths[0] || exists|k: int| 0 <= k < tokens.len() && #[trigger] tokens[k] >= frame_widths[0] {
        Some("transcript token is outside the acoustic-model vocabulary"@)
    } else if states > usize::MAX {
        Some("forced-alignment transcript is too long"@)
    } else if cells > usize::MAX {
        Some("forced-alignment input is too long"@)
    } else if cells > MAX_TRACE_CELLS {
        Some(too_many_cells_error(cells))
    } else if frame_widths.len() < tokens.len() {
        Some("audio has fewer acoustic frames than transcript tokens"@)
    } else {
        None
    }
}

/// Checks the alignment inputs (after the frame duration has been checked)
/// and returns the number of trellis states and trace cells.
pub fn check_alignment_input(frame_widths: &Vec<usize>, tokens: &Vec<usize>, blank: usize) -> (r: Result<(usize, usize), String>)
    ensures
        match r {
            Ok((states, cells)) => alignment_input_error(frame_widths@, tokens@, blank).is_none()
                && states == 2 * tokens@.len() + 1 && cells == frame_widths@.len() * states,
            Err(e) => alignment_input_error(frame_widths@, tokens@, blank) == Some(e@),
        },
{
    if frame_widths.len() == 0 || tokens.len() == 0 {
        return Err(string_from(&chars_of("forced alignment requires emissions and transcript tokens")));
    }
    let vocabulary = frame_widths[0];
    let mut f: usize = 0;
    let mut consistent = vocabulary != 0;
    while f < frame_widths.len() && consistent
        invariant
            f <= frame_widths@.len(),
            vocabulary == frame_widths@[0],
            consistent ==> vocabulary != 0 && forall|g: int| 0 <= g < f ==> frame_widths@[g] == vocabulary,
            !consistent ==> vocabulary == 0 || exists|g: int| 0 <= g < frame_widths@.len() && #[trigger] frame_widths@[g] != vocabulary,
        decreases frame_widths.len() - f,
    {
        if frame_widths[f] != vocabulary {
            consistent = false;
        }
        f = f + 1;
    }
    if !consistent {
        return Err(string_from(&chars_of("acoustic emissions have inconsistent vocabulary dimensions")));
    }
    let mut k: usize = 0;
    let mut in_range = blank < vocabulary;
    while k < tokens.len() && in_range
        invariant
            k <= tokens@.len(),
            in_range ==> blank < vocabulary && forall|j: int| 0 <= j < k ==> tokens@[j] < vocabulary,
            !in_range ==> blank >= vocabulary || exists|j: int| 0 <= j < tokens@.len() && #[trigger] tokens@[j] >= vocabulary,
        decreases tokens.len() - k,
    {
        if tokens[k] >= vocabulary {
            in_range = false;
        }
        k = k + 1;
    }
    if !in_range {
        return Err(string_from(&chars_of("transcript token is outside the acoustic-model vocabulary")));
    }
    if tokens.len() > (usize::MAX - 1) / 2 {
        return Err(string_from(&chars_of("forced-alignment transcript is too long")));
    }
    let states = tokens.len() * 2 + 1;
    if frame_widths.len() > usize::MAX / states {
        proof {
            assert(frame_widths@.len() * states > usize::MAX) by (nonlinear_arith)
                requires
                    frame_widths@.len() > usize::MAX / states,
                    states > 0,
            ;
        }
        return Err(string_from(&chars_of("forced-alignment input is too long")));
    }
    proof {
        assert(frame_widths@.len() * states <= usize::MAX) by (nonlinear_arith)
            requires
                frame_widths@.len() <= usize::MAX / states,
                states > 0,
        ;
    }
    let cells = frame_widths.len() * states;
    if cells > MAX_TRACE_CELLS {
        let mut message: Vec<char> = Vec::new();
        extend_str(&mut message, "forced alignment needs ");
        push_decimal(&mut message, cells as u64);
        extend_str(&mut message, " trace cells (limit ");
        push_decimal(&mut message, MAX_TRACE_CELLS as u64);
        extend_str(&mut message, ")");
        return Err(string_from(&message));
    }
    if frame_widths.len() < tokens.len() {
        return Err(string_from(&chars_of("audio has fewer acoustic frames than transcript tokens")));
    }
    Ok((states, cells))
}

/// The CTC rule for skipping a blank: the path may jump straight from
/// token state `state - 2` to token state `state` only when the two tokens
/// differ (a repeated token needs a blank between its two occurrences).
pub open spec fn skip_allowed(state: int, tokens: Seq<usize>) -> bool {
    state >= 2 && state % 2 == 1 && tokens[state / 2] != tokens[state / 2 - 1]
}

/// Whether the Viterbi pass may reach `state` by skipping the blank before
/// it.
pub fn may_skip_blank(state: usize, tokens: &Vec<usize>) -> (r: bool)
    requires
        state < 2 * tokens@.len() + 1,
    ensures
        r == skip_allowed(state as int, tokens@),
{
    state >= 2 && state % 2 == 1 && tokens[state / 2] != tokens[state / 2 - 1]
}

/// One step back along the trace: the recorded move (0 stay, 1 advance,
/// 2 skip) is undone, never below the first state.
pub open spec fn step_back(state: int, step: u8) -> int {
    if state >= step {
        state - step
    } else {
        0
    }
}

/// The state the best path is in at frame `f`, when it ends in `last` at
/// the last of `frames` frames and `trace[f * states + s]` records the move
/// into state `s` at frame `f`.
pub open spec fn path_state(trace: Seq<u8>, states: int, last: int, frames: int, f: int) -> int
    decreases frames - f,
{
    if f >= frames - 1 {
        last
    } else {
        let next = path_state(trace, states, last, frames, f + 1);
        step_back(next, trace[(f + 1) * states + next])
    }
}

proof fn lemma_path_state_bounds(trace: Seq<u8>, states: int, last: int, frames: int, f: int)
    requires
        0 <= last < states,
    ensures
        0 <= path_state(trace, states, last, frames, f) <= last,
    decreases frames - f,
{
    if f < frames - 1 {
        lemma_path_state_bounds(trace, states, last, frames, f + 1);
    }
}

proof fn lemma_cell_in_trace(f: int, s: int, frames: int, states: int)
    requires
        0 <= f < frames,
        0 <= s < states,
    ensures
        0 <= f * states + s < frames * states,
{
    assert(f * states + s < (f + 1) * states) by (nonlinear_arith)
        requires
            s < states,
    ;
    assert((f + 1) * states <= frames * states) by (nonlinear_arith)
        requires
            f + 1 <= frames,
            states > 0,
    ;
    assert(f * states >= 0) by (nonlinear_arith)
        requires
            f >= 0,
            states > 0,
    ;
}

/// Backtracking undoes each recorded move exactly: the path is in `last`
/// at the final frame, and at every earlier frame it is in the next
/// frame's state minus the move recorded for that state (0 to stay, 1 to
/// advance, 2 to skip a blank), never below the first state. So a skip
/// moves the path back by two states, from one token straight to the one
/// before it.
pub proof fn backtracking_undoes_each_move(trace: Seq<u8>, states: int, last: int, frames: int, f: int)
    requires
        0 <= f < frames - 1,
    ensures
        path_state(trace, states, last, frames, frames - 1) == last,
        ({
            let next = path_state(trace, states, last, frames, f + 1);
            let step = trace[(f + 1) * states + next] as int;
            path_state(trace, states, last, frames, f) == (if next >= step {
                next - step
            } else {
                0
            })
        }),
{
}

/// Walks the Viterbi trace back from `last` at the final frame and returns
/// the state of the best path at every frame.
pub fn backtrack_path(trace: &Vec<u8>, frames: usize, states: usize, last: usize) -> (path: Vec<usize>)
    requires
        frames > 0,
        last < states,
        trace@.len() >= frames * states,
    ensures
        path@.len() == frames,
        forall|f: int|
            0 <= f < frames ==> #[trigger] path@[f] == path_state(trace@, states as int, last as int, frames as int, f),
        path@[frames - 1] == last,
        forall|f: int|
            0 <= f < frames - 1 ==> {
                let next = path@[f + 1] as int;
                let step = trace@[(f + 1) * states + next] as int;
                #[trigger] path@[f] == (if next >= step {
                    next - step
                } else {
                    0
                })
            },
{
    // `reversed[i]` is the state at frame `frames - 1 - i`
    let cells = trace.len();
    let mut reversed: Vec<usize> = Vec::new();
    let mut state = last;
    let mut frame = frames - 1;
    reversed.push(state);
    while frame > 0
        invariant
            frame < frames,
            reversed@.len() == frames - frame,
            state == path_state(trace@, states as int, last as int, frames as int, frame as int),
            state <= last < states,
            trace@.len() >= frames * states,
            cells == trace@.len(),
            forall|i: int|
                0 <= i < reversed@.len() ==> #[trigger] reversed@[i] == path_state(
                    trace@,
                    states as int,
                    last as int,
                    frames as int,
                    frames - 1 - i,
                ),
        decreases frame,
    {
        proof {
            lemma_cell_in_trace(frame as int, state as int, frames as int, states as int);
            assert(frame * states + state < cells);
        }
        let step = trace[frame * states + state];
        let previous = if state >= step as usize {
            state - step as usize
        } else {
            0
        };
        proof {
            lemma_path_state_bounds(trace@, states as int, last as int, frames as int, frame - 1);
            assert(previous == path_state(trace@, states as int, last as int, frames as int, frame - 1));
        }
        state = previous;
        frame = frame - 1;
        reversed.push(state);
    }
    let mut path: Vec<usize> = Vec::new();
    let mut i: usize = 0;
    while i < frames
        invariant
            i <= frames,
            reversed@.len() == frames,
            path@.len() == i,
            forall|f: int| 0 <= f < i ==> #[trigger] path@[f] == reversed@[frames - 1 - f],
        decreases frames - i,
    {
        path.push(reversed[frames - 1 - i]);
        i = i + 1;
    }
    proof {
        assert forall|f: int| 0 <= f < frames - 1 implies {
            let next = path@[f + 1] as int;
            let step = trace@[(f + 1) * states + next] as int;
            #[trigger] path@[f] == (if next >= step {
                next - step
            } else {
                0
            })
        } by {
            assert(path@[f] == reversed@[frames - 1 - f]);
            assert(path@[f + 1] == reversed@[frames - 1 - (f + 1)]);
            backtracking_undoes_each_move(trace@, states as int, last as int, frames as int, f);
        }
        assert forall|f: int| 0 <= f < frames implies #[trigger] path@[f] == path_state(
            trace@,
            states as int,
            last as int,
            frames as int,
            f,
        ) by {
            assert(path@[f] == reversed@[frames - 1 - f]);
        }
    }
    path
}

/// The frames of `path` spent in the state of token `k`.
pub open spec fn in_token(path: Seq<usize>, k: int, f: int) -> bool {
    path[f] == 2 * k + 1
}

/// `span` is the span of token `k` along `path`: `None` when the path never
/// visits the token's state, otherwise the first frame it does and one past
/// the last.
pub open spec fn token_span_is(path: Seq<usize>, k: int, span: Option<(usize, usize)>) -> bool {
    match span {
        None => forall|f: int| 0 <= f < path.len() ==> !#[trigger] in_token(path, k, f),
        Some((start, end)) => {
            &&& start < end <= path.len()
            &&& in_token(path, k, start as int)
            &&& in_token(path, k, end - 1)
            &&& forall|f: int| 0 <= f < path.len() && #[trigger] in_token(path, k, f) ==> start <= f < end
        },
    }
}

/// For each of `token_count` tokens, the frames the path spends on it, as
/// `(first frame, one past the last frame)`.
pub fn token_spans(path: &Vec<usize>, token_count: usize) -> (spans: Vec<Option<(usize, usize)>>)
    ensures
        spans@.len() == token_count,
        forall|k: int| 0 <= k < token_count ==> token_span_is(path@, k, #[trigger] spans@[k]),
{
    let mut spans: Vec<Option<(usize, usize)>> = Vec::new();
    let mut k: usize = 0;
    while k < token_count
        invariant
            k <= token_count,
            spans@.len() == k,
            forall|j: int| 0 <= j < k ==> #[trigger] spans@[j] is None,
        decreases token_count - k,
    {
        spans.push(None);
        k = k + 1;
    }
    let mut f: usize = 0;
    while f < path.len()
        invariant
            f <= path@.len(),
            spans@.len() == token_count,
            forall|j: int| 0 <= j < token_count ==> token_span_is(path@.take(f as int), j, #[trigger] spans@[j]),
        decreases path.len() - f,
    {
        let ghost before = spans@;
        let ghost seen = path@.take(f as int);
        let ghost now = path@.take(f + 1);
        let state = path[f];
        if state % 2 == 1 && state / 2 < token_count {
            let t = state / 2;
            let updated = match spans[t] {
                None => Some((f, f + 1)),
                Some((start, _)) => Some((start, f + 1)),
            };
            spans.set(t, updated);
        }
        proof {
            assert forall|j: int| 0 <= j < token_count implies token_span_is(now, j, #[trigger] spans@[j]) by {
                assert(token_span_is(seen, j, before[j]));
                assert forall|g: int| 0 <= g < f implies in_token(now, j, g) == in_token(seen, j, g) by {
                    assert(now[g] == seen[g]);
                }
                assert(now[f as int] == state);
                if in_token(now, j, f as int) {
                    assert(state % 2 == 1 && state / 2 == j);
                }
            }
        }
        f = f + 1;
    }
    assert(path@.take(path@.len() as int) == path@);
    spans
}

} // verus!
