//! Gathering per-token alignment results into per-line times.
use vstd::prelude::*;

use super::tokenizer::Transcript;
use crate::domain::lyrics::{LyricLine, TimestampSource};
use crate::domain::project::duplicate_lines;
use crate::text::{chars_of, string_from};

verus! {

/// The indices, in order, of the first `n` tokens that belong to line
/// `line` and are not word delimiters.
pub open spec fn owned_indices(
    token_ids: Seq<usize>,
    line_indices: Seq<usize>,
    delimiter: Option<usize>,
    line: usize,
    n: int,
) -> Seq<usize>
    decreases n,
{
    if n <= 0 {
        Seq::empty()
    } else {
        let earlier = owned_indices(token_ids, line_indices, delimiter, line, n - 1);
        if line_indices[n - 1] == line && delimiter != Some(token_ids[n - 1]) {
            earlier.push((n - 1) as usize)
        } else {
            earlier
        }
    }
}

/// A token that line `line` owns and that is not a word delimiter.
pub open spec fn sung_on_line(
    token_ids: Seq<usize>,
    line_indices: Seq<usize>,
    delimiter: Option<usize>,
    line: usize,
    i: int,
) -> bool {
    line_indices[i] == line && delimiter != Some(token_ids[i])
}

/// The tokens that time a line are exactly its sung tokens, in transcript
/// order: every index returned is below `n`, belongs to line `line` and is
/// not a word delimiter; the indices increase; and every such token below
/// `n` is among them.
pub proof fn owned_tokens_are_the_lines_sung_tokens(
    token_ids: Seq<usize>,
    line_indices: Seq<usize>,
    delimiter: Option<usize>,
    line: usize,
    n: int,
)
    requires
        0 <= n <= token_ids.len(),
        line_indices.len() == token_ids.len(),
        token_ids.len() <= usize::MAX,
    ensures
        ({
            let r = owned_indices(token_ids, line_indices, delimiter, line, n);
            &&& forall|k: int| 0 <= k < r.len() ==> 0 <= #[trigger] r[k] < n
            &&& forall|k: int| 0 <= k < r.len() ==> line_indices[#[trigger] r[k] as int] == line
            &&& forall|k: int| 0 <= k < r.len() ==> delimiter != Some(token_ids[#[trigger] r[k] as int])
            &&& forall|j: int, k: int| 0 <= j < k < r.len() ==> r[j] < r[k]
            &&& forall|i: int| 0 <= i < n && #[trigger] sung_on_line(token_ids, line_indices, delimiter, line, i) ==> r.contains(i as usize)
        }),
    decreases n,
{
    if n > 0 {
        owned_tokens_are_the_lines_sung_tokens(token_ids, line_indices, delimiter, line, n - 1);
        let earlier = owned_indices(token_ids, line_indices, delimiter, line, n - 1);
        let r = owned_indices(token_ids, line_indices, delimiter, line, n);
        if sung_on_line(token_ids, line_indices, delimiter, line, n - 1) {
            assert(r == earlier.push((n - 1) as usize));
            assert forall|k: int| 0 <= k < r.len() implies 0 <= #[trigger] r[k] < n && line_indices[r[k] as int] == line
                && delimiter != Some(token_ids[r[k] as int]) by {
                if k < earlier.len() {
                    assert(r[k] == earlier[k]);
                }
            }
            assert forall|j: int, k: int| 0 <= j < k < r.len() implies r[j] < r[k] by {
                assert(r[j] == earlier[j]);
                if k < earlier.len() {
                    assert(r[k] == earlier[k]);
                }
            }
            assert forall|i: int| 0 <= i < n && #[trigger] sung_on_line(token_ids, line_indices, delimiter, line, i) implies r.contains(i as usize) by {
                if i < n - 1 {
                    let k = choose|k: int| 0 <= k < earlier.len() && earlier[k] == i as usize;
                    assert(r[k] == i as usize);
                } else {
                    assert(r[earlier.len() as int] == i as usize);
                }
            }
        } else {
            assert(r == earlier);
            assert forall|i: int| 0 <= i < n && #[trigger] sung_on_line(token_ids, line_indices, delimiter, line, i) implies r.contains(i as usize) by {
                assert(i < n - 1);
            }
        }
    }
}

/// The tokens whose alignment decides the times of line `line_index`:
/// those it owns, word delimiters excluded, in transcript order.
pub fn owned_tokens(transcript: &Transcript, line_index: usize) -> (r: Vec<usize>)
    requires
        transcript.line_indices@.len() == transcript.token_ids@.len(),
    ensures
        r@ == owned_indices(
            transcript.token_ids@,
            transcript.line_indices@,
            transcript.delimiter_id,
            line_index,
            transcript.token_ids@.len() as int,
        ),
        forall|k: int|
            0 <= k < r@.len() ==> #[trigger] r@[k] < transcript.token_ids@.len()
                && transcript.line_indices@[r@[k] as int] == line_index
                && transcript.delimiter_id != Some(transcript.token_ids@[r@[k] as int]),
        forall|j: int, k: int| 0 <= j < k < r@.len() ==> r@[j] < r@[k],
        forall|i: int|
            0 <= i < transcript.token_ids@.len() && #[trigger] sung_on_line(
                transcript.token_ids@,
                transcript.line_indices@,
                transcript.delimiter_id,
                line_index,
                i,
            ) ==> r@.contains(i as usize),
{
    let mut r: Vec<usize> = Vec::new();
    let mut i: usize = 0;
    while i < transcript.token_ids.len()
        invariant
            i <= transcript.token_ids@.len(),
            transcript.line_indices@.len() == transcript.token_ids@.len(),
            r@ == owned_indices(
                transcript.token_ids@,
                transcript.line_indices@,
                transcript.delimiter_id,
                line_index,
                i as int,
            ),
        decreases transcript.token_ids.len() - i,
    {
        let is_delimiter = match transcript.delimiter_id {
            Some(d) => d == transcript.token_ids[i],
            None => false,
        };
        if transcript.line_indices[i] == line_index && !is_delimiter {
            r.push(i);
        }
        i = i + 1;
    }
    proof {
        owned_tokens_are_the_lines_sung_tokens(
            transcript.token_ids@,
            transcript.line_indices@,
            transcript.delimiter_id,
            line_index,
            transcript.token_ids@.len() as int,
        );
    }
    r
}

/// The span count and the transcript's two sequences must all agree.
pub open spec fn metadata_consistent(transcript: Transcript, spans: nat) -> bool {
    spans == transcript.token_ids@.len() && transcript.line_indices@.len()
        == transcript.token_ids@.len()
}

/// Checks that one alignment span exists per token and one owner per token.
pub fn check_token_metadata(transcript: &Transcript, spans: usize) -> (r: Result<(), String>)
    ensures
        r.is_ok() == metadata_consistent(*transcript, spans as nat),
        r.is_err() ==> r->Err_0@ == "forced-alignment token metadata is inconsistent"@,
{
    if spans != transcript.token_ids.len()
        || transcript.line_indices.len() != transcript.token_ids.len() {
        return Err(string_from(&chars_of("forced-alignment token metadata is inconsistent")));
    }
    Ok(())
}

/// The times found for one line: first and last aligned millisecond and the
/// confidence as an IEEE-754 binary32 bit pattern.
#[derive(Debug, Clone, Copy, PartialEq, Eq, Structural)]
pub struct LineTiming {
    pub start_ms: u64,
    pub end_ms: u64,
    pub confidence: u32,
}

/// `after` is line `before` after resolution with `timing`: manually timed
/// lines keep everything; other lines get the timing and a forced-alignment
/// source, or lose all timing when no token of theirs was aligned.
pub open spec fn resolved_line(after: LyricLine, before: LyricLine, timing: Option<LineTiming>) -> bool {
    &&& after.id == before.id
    &&& after.original_text == before.original_text
    &&& after.reading_text == before.reading_text
    &&& after.reading_source == before.reading_source
    &&& if before.timestamp_source == Some(TimestampSource::Manual) {
        after == before
    } else {
        match timing {
            Some(t) => {
                &&& after.start_ms == Some(t.start_ms)
                &&& after.end_ms == Some(t.end_ms)
                &&& after.confidence == Some(t.confidence)
                &&& after.timestamp_source == Some(TimestampSource::ForcedAlignment)
            },
            None => {
                &&& after.start_ms.is_none()
                &&& after.end_ms.is_none()
                &&& after.confidence.is_none()
                &&& after.timestamp_source.is_none()
            },
        }
    }
}

/// Applies per-line alignment results to a copy of the lyrics. Lines whose
/// timing was set manually are left alone; `timings[i]` is the result for
/// line `i` (none when no token of the line was aligned).
pub fn apply_line_timings(lyrics: &Vec<LyricLine>, timings: &Vec<Option<LineTiming>>) -> (r: Vec<LyricLine>)
    requires
        timings@.len() == lyrics@.len(),
    ensures
        r@.len() == lyrics@.len(),
        forall|i: int| 0 <= i < lyrics@.len() ==> resolved_line(#[trigger] r@[i], lyrics@[i], timings@[i]),
{
    let mut result = duplicate_lines(lyrics.as_slice());
    let mut i: usize = 0;
    while i < result.len()
        invariant
            i <= result@.len(),
            result@.len() == lyrics@.len(),
            timings@.len() == lyrics@.len(),
            forall|k: int| 0 <= k < i ==> resolved_line(#[trigger] result@[k], lyrics@[k], timings@[k]),
            forall|k: int| i <= k < result@.len() ==> #[trigger] result@[k] == lyrics@[k],
        decreases result.len() - i,
    {
        let mut line = result[i].duplicate();
        let manual = match line.timestamp_source {
            Some(TimestampSource::Manual) => true,
            _ => false,
        };
        if !manual {
            match timings[i] {
                Some(t) => {
                    line.start_ms = Some(t.start_ms);
                    line.end_ms = Some(t.end_ms);
                    line.confidence = Some(t.confidence);
                    line.timestamp_source = Some(TimestampSource::ForcedAlignment);
                },
                None => {
                    line.start_ms = None;
                    line.end_ms = None;
                    line.confidence = None;
                    line.timestamp_source = None;
                },
            }
        }
        result.set(i, line);
        i = i + 1;
    }
    result
}

} // verus!
