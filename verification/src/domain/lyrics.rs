//! Turning editable lyric text into lines, applying a separate reading
//! file, and re-basing line data after the text is edited.
use vstd::prelude::*;

pub use super::project::{LyricLine, ReadingSource, TimestampSource};
use super::project::clone_opt_string;
use crate::text::{
    cr_before_lf_inside, cr_only_at_row_ends, cr_then_lf, crlf_to_lf, lemma_crlf_first, lemma_crlf_rows,
    lemma_split_len, newline_count, all_ws, chars_of, decimal, extend_str, is_blank, lemma_split_push, push_decimal, slice_chars, split_lines,
    string_from, strip_bom, strip_cr, trim, trim_chars,
};

verus! {

/// The rows of lyric text: a leading byte order mark is dropped, the text
/// is split at `\n` and one trailing `\r` is removed from each row.
pub open spec fn lyric_rows(input: Seq<char>) -> Seq<Seq<char>> {
    split_lines(strip_bom(input)).map_values(|row: Seq<char>| strip_cr(row))
}

/// `line` is a freshly parsed line: id `id`, text `text`, nothing else set.
pub open spec fn is_fresh_line(line: LyricLine, id: int, text: Seq<char>) -> bool {
    &&& line.id == id
    &&& line.original_text@ == text
    &&& line.reading_text.is_none()
    &&& line.reading_source.is_none()
    &&& line.start_ms.is_none()
    &&& line.end_ms.is_none()
    &&& line.confidence.is_none()
    &&& line.timestamp_source.is_none()
}

/// `lines` is the result of parsing `input`.
pub open spec fn parsed_from(lines: Seq<LyricLine>, input: Seq<char>) -> bool {
    &&& lines.len() == lyric_rows(input).len()
    &&& forall|i: int|
        0 <= i < lines.len() ==> is_fresh_line(#[trigger] lines[i], i, lyric_rows(input)[i])
}

fn make_line(id: usize, row: &Vec<char>) -> (line: LyricLine)
    ensures
        is_fresh_line(line, id as int, strip_cr(row@)),
{
    let n = row.len();
    let text = if n > 0 && row[n - 1] == '\r' {
        let t = slice_chars(row, 0, n - 1);
        assert(t@ == row@.drop_last());
        t
    } else {
        slice_chars(row, 0, n)
    };
    assert(row@.subrange(0, n as int) == row@);
    LyricLine::new(id, string_from(&text))
}

/// The raw rows of `input`: split at `\n` after dropping a leading byte
/// order mark.
fn text_rows(input: &str) -> (rows: Vec<Vec<char>>)
    ensures
        rows@.len() == split_lines(strip_bom(input@)).len(),
        forall|k: int| 0 <= k < rows@.len() ==> #[trigger] rows@[k]@ == split_lines(strip_bom(input@))[k],
{
    let cs = chars_of(input);
    let start: usize = if cs.len() > 0 && cs[0] == '\u{feff}' { 1 } else { 0 };
    let ghost body = strip_bom(input@);
    assert(body == cs@.subrange(start as int, cs.len() as int));
    let mut rows: Vec<Vec<char>> = Vec::new();
    let mut current: Vec<char> = Vec::new();
    let ghost mut pieces: Seq<Seq<char>> = Seq::empty();
    let mut i = start;
    assert(cs@.subrange(start as int, start as int) == Seq::<char>::empty());
    while i < cs.len()
        invariant
            start <= i <= cs.len(),
            body == cs@.subrange(start as int, cs.len() as int),
            split_lines(cs@.subrange(start as int, i as int)) == pieces.push(current@),
            rows@.len() == pieces.len(),
            forall|k: int| 0 <= k < rows@.len() ==> #[trigger] rows@[k]@ == pieces[k],
        decreases cs.len() - i,
    {
        let c = cs[i];
        proof {
            lemma_split_push(cs@.subrange(start as int, i as int), c);
            assert(cs@.subrange(start as int, i + 1) == cs@.subrange(start as int, i as int).push(
                c,
            ));
        }
        if c == '\n' {
            proof {
                pieces = pieces.push(current@);
            }
            rows.push(current);
            current = Vec::new();
        } else {
            current.push(c);
        }
        i = i + 1;
    }
    proof {
        pieces = pieces.push(current@);
        assert(split_lines(body) == pieces);
    }
    rows.push(current);
    rows
}

/// Parses the editable lyric text without changing its line boundaries.
///
/// A UTF-8 BOM is tolerated at the very beginning of the input and CRLF
/// input is represented with the same text as LF input. Every row, blank
/// or not, becomes one line whose id is its position.
pub fn parse_lyrics(input: &str) -> (lines: Vec<LyricLine>)
    ensures
        parsed_from(lines@, input@),
{
    let rows = text_rows(input);
    let mut lines: Vec<LyricLine> = Vec::new();
    let mut i: usize = 0;
    while i < rows.len()
        invariant
            i <= rows@.len(),
            rows@.len() == split_lines(strip_bom(input@)).len(),
            forall|k: int| 0 <= k < rows@.len() ==> #[trigger] rows@[k]@ == split_lines(strip_bom(input@))[k],
            lines@.len() == i,
            forall|k: int|
                0 <= k < i ==> is_fresh_line(#[trigger] lines@[k], k, lyric_rows(input@)[k]),
        decreases rows.len() - i,
    {
        let line = make_line(i, &rows[i]);
        lines.push(line);
        i = i + 1;
    }
    lines
}

/// Parsed lines depend on the input only through its rows.
proof fn lemma_same_rows_same_lines(lines: Seq<LyricLine>, a: Seq<char>, b: Seq<char>)
    requires
        lyric_rows(a) == lyric_rows(b),
    ensures
        parsed_from(lines, a) <==> parsed_from(lines, b),
{
}

/// Parsing gives one line per `\n` in the input, plus one, each numbered by
/// its position and holding nothing but its text.
pub proof fn one_line_per_newline(input: Seq<char>, lines: Seq<LyricLine>)
    requires
        parsed_from(lines, input),
    ensures
        lines.len() == newline_count(input) + 1,
        forall|i: int| 0 <= i < lines.len() ==> (#[trigger] lines[i]).id == i && lines[i].reading_text.is_none()
            && lines[i].reading_source.is_none() && lines[i].start_ms.is_none() && lines[i].end_ms.is_none()
            && lines[i].confidence.is_none() && lines[i].timestamp_source.is_none(),
{
    lemma_split_len(strip_bom(input));
    if input.len() > 0 && input[0] == '\u{feff}' {
        assert(input == seq!['\u{feff}'] + strip_bom(input));
        lemma_newline_count_concat(seq!['\u{feff}'], strip_bom(input));
        assert(newline_count(seq!['\u{feff}']) == 0) by {
            let bom = seq!['\u{feff}'];
            assert(bom.drop_last() == Seq::<char>::empty());
            assert(bom.last() == '\u{feff}');
            assert(newline_count(Seq::<char>::empty()) == 0);
            assert(newline_count(bom) == newline_count(bom.drop_last()));
        }
    }
    assert forall|i: int| 0 <= i < lines.len() implies (#[trigger] lines[i]).id == i && lines[i].reading_text.is_none()
        && lines[i].reading_source.is_none() && lines[i].start_ms.is_none() && lines[i].end_ms.is_none()
        && lines[i].confidence.is_none() && lines[i].timestamp_source.is_none() by {
        assert(is_fresh_line(lines[i], i, lyric_rows(input)[i]));
    }
}

proof fn lemma_newline_count_concat(a: Seq<char>, b: Seq<char>)
    ensures
        newline_count(a + b) == newline_count(a) + newline_count(b),
    decreases b.len(),
{
    if b.len() > 0 {
        lemma_newline_count_concat(a, b.drop_last());
        assert((a + b).drop_last() == a + b.drop_last());
    } else {
        assert(a + b == a);
    }
}

/// CRLF input parses like LF input, and a leading byte order mark is
/// ignored: when every `\r` of `input` ends a line (is followed by `\n`)
/// and `input` does not itself start with a byte order mark, replacing each
/// `\r\n` by `\n`, or putting a byte order mark in front, gives the same
/// rows and therefore the same parsed lines.
pub proof fn line_endings_and_bom_parse_alike(input: Seq<char>, lines: Seq<LyricLine>)
    requires
        input.len() == 0 || input[0] != '\u{feff}',
        forall|i: int| 0 <= i < input.len() && #[trigger] input[i] == '\r' ==> i + 1 < input.len() && input[i + 1] == '\n',
    ensures
        lyric_rows(crlf_to_lf(input)) == lyric_rows(input),
        lyric_rows(seq!['\u{feff}'] + input) == lyric_rows(input),
        parsed_from(lines, crlf_to_lf(input)) <==> parsed_from(lines, input),
        parsed_from(lines, seq!['\u{feff}'] + input) <==> parsed_from(lines, input),
{
    let n = input.len();
    // the text after a byte order mark is the input itself
    let with_bom = seq!['\u{feff}'] + input;
    assert(strip_bom(with_bom) == input) by {
        assert(with_bom.drop_first() == input);
    }
    assert(strip_bom(input) == input);
    // the rows of the CRLF and the LF text
    assert(cr_before_lf_inside(input)) by {
        assert forall|i: int| 0 <= i < input.len() - 1 implies #[trigger] cr_then_lf(input, i) by {}
    }
    lemma_crlf_rows(input);
    let converted = crlf_to_lf(input);
    if n > 0 {
        lemma_crlf_first(input);
    } else {
        assert(converted == input);
    }
    assert(strip_bom(converted) == converted);
    let a = split_lines(input);
    let b = split_lines(converted);
    assert(n > 0 ==> input.last() != '\r') by {
        if n > 0 && input[n - 1] == '\r' {
            assert(n - 1 + 1 < n);
        }
    }
    crate::text::lemma_split_last_row(input);
    assert(cr_only_at_row_ends(a));
    assert(a.map_values(|row: Seq<char>| strip_cr(row)) =~= b.map_values(|row: Seq<char>| strip_cr(row))) by {
        assert forall|k: int| 0 <= k < a.len() implies strip_cr(#[trigger] a[k]) == strip_cr(b[k]) by {
            if k < a.len() - 1 {
                let r = a[k];
                let t = strip_cr(r);
                assert(b[k] == t);
                if t.len() > 0 {
                    assert(t.last() != '\r') by {
                        if r.len() > 0 && r.last() == '\r' {
                            assert(t.last() == r[r.len() - 2]);
                            assert(a[k][r.len() - 2] != '\r');
                        } else {
                            assert(t.last() == r[r.len() - 1]);
                            assert(r.last() != '\r');
                        }
                    }
                }
            } else {
                assert(b[k] == a[k]);
            }
        }
    }
    lemma_same_rows_same_lines(lines, converted, input);
    lemma_same_rows_same_lines(lines, with_bom, input);
}

/// `after` is `before` with its reading set from the trimmed row `row`:
/// an empty row clears the reading, any other row becomes a manual reading.
pub open spec fn reading_applied(after: LyricLine, before: LyricLine, row: Seq<char>) -> bool {
    &&& after.id == before.id
    &&& after.original_text == before.original_text
    &&& after.start_ms == before.start_ms
    &&& after.end_ms == before.end_ms
    &&& after.confidence == before.confidence
    &&& after.timestamp_source == before.timestamp_source
    &&& if row.len() == 0 {
        after.reading_text.is_none() && after.reading_source.is_none()
    } else {
        &&& after.reading_text.is_some()
        &&& after.reading_text->0@ == row
        &&& after.reading_source == Some(ReadingSource::Manual)
    }
}

/// Sets or clears the reading of one line.
pub(crate) fn set_reading(line: &mut LyricLine, reading: &Vec<char>)
    ensures
        reading_applied(*final(line), *old(line), reading@),
{
    if reading.len() == 0 {
        line.reading_text = None;
        line.reading_source = None;
    } else {
        line.reading_text = Some(string_from(reading));
        line.reading_source = Some(ReadingSource::Manual);
    }
}


/// Sets the reading of line `index` to the text the user typed: an empty
/// text clears the reading, any other becomes a manual reading. No other
/// line changes, and an index past the end changes nothing.
pub fn set_line_reading(lyrics: &mut Vec<LyricLine>, index: usize, reading: &str)
    ensures
        final(lyrics)@.len() == old(lyrics)@.len(),
        index < old(lyrics)@.len() ==> reading_applied(final(lyrics)@[index as int], old(lyrics)@[index as int], reading@),
        forall|k: int| 0 <= k < old(lyrics)@.len() && k != index ==> #[trigger] final(lyrics)@[k] == old(lyrics)@[k],
{
    if index < lyrics.len() {
        let mut line = lyrics[index].duplicate();
        set_reading(&mut line, &chars_of(reading));
        lyrics.set(index, line);
    }
}

/// Removes trailing empty rows.
pub open spec fn drop_trailing_empty(rows: Seq<Seq<char>>) -> Seq<Seq<char>>
    decreases rows.len(),
{
    if rows.len() > 0 && rows.last().len() == 0 {
        drop_trailing_empty(rows.drop_last())
    } else {
        rows
    }
}

/// The rows of a reading file: split like lyrics, each row trimmed, and
/// trailing empty rows removed.
pub open spec fn reading_rows(input: Seq<char>) -> Seq<Seq<char>> {
    drop_trailing_empty(lyric_rows(input).map_values(|row: Seq<char>| trim(row)))
}

/// The line's text is empty after trimming.
pub open spec fn is_blank_line(line: LyricLine) -> bool {
    all_ws(line.original_text@)
}

/// The number of lines left after dropping trailing blank lines.
pub open spec fn content_len(lines: Seq<LyricLine>) -> nat
    decreases lines.len(),
{
    if lines.len() > 0 && is_blank_line(lines.last()) {
        content_len(lines.drop_last())
    } else {
        lines.len()
    }
}

/// The non-empty rows, in order.
pub open spec fn keep_nonempty(rows: Seq<Seq<char>>) -> Seq<Seq<char>>
    decreases rows.len(),
{
    if rows.len() == 0 {
        rows
    } else if rows.last().len() > 0 {
        keep_nonempty(rows.drop_last()).push(rows.last())
    } else {
        keep_nonempty(rows.drop_last())
    }
}

/// The number of non-blank lines among the first `n`.
pub open spec fn count_nonblank(lines: Seq<LyricLine>, n: int) -> nat
    decreases n,
{
    if n <= 0 {
        0
    } else if is_blank_line(lines[n - 1]) {
        count_nonblank(lines, n - 1)
    } else {
        count_nonblank(lines, n - 1) + 1
    }
}

/// The number of lines among the first `n` that carry a reading.
pub open spec fn count_readings(lines: Seq<LyricLine>, n: int) -> nat
    decreases n,
{
    if n <= 0 {
        0
    } else if lines[n - 1].reading_text.is_some() {
        count_readings(lines, n - 1) + 1
    } else {
        count_readings(lines, n - 1)
    }
}

/// The message reported when a reading file does not fit the lyrics.
pub open spec fn line_count_mismatch(lyric_lines: nat, reading_lines: nat) -> Seq<char> {
    "カタカナ歌詞の行数が一致しません（原文の歌詞行: "@ + decimal(lyric_lines)
        + "、カタカナ行: "@ + decimal(reading_lines) + "）"@
}

/// What applying the reading file `input` to `before` yields.
pub open spec fn readings_applied(
    after: Seq<LyricLine>,
    before: Seq<LyricLine>,
    input: Seq<char>,
) -> bool {
    let rows = reading_rows(input);
    let kept = keep_nonempty(rows);
    &&& after.len() == before.len()
    &&& if rows.len() == content_len(before) {
        &&& forall|i: int|
            0 <= i < rows.len() ==> reading_applied(#[trigger] after[i], before[i], rows[i])
        &&& forall|i: int| rows.len() <= i < before.len() ==> #[trigger] after[i] == before[i]
    } else {
        forall|i: int|
            0 <= i < before.len() ==> reading_applied(
                #[trigger] after[i],
                before[i],
                if is_blank_line(before[i]) {
                    Seq::<char>::empty()
                } else {
                    kept[count_nonblank(before, i) as int]
                },
            )
    }
}

/// A reading file can be applied: its row count matches the lyrics either
/// row for row, or once blank rows are left out on both sides.
pub open spec fn readings_fit(before: Seq<LyricLine>, input: Seq<char>) -> bool {
    let rows = reading_rows(input);
    rows.len() == content_len(before) || keep_nonempty(rows).len() == count_nonblank(
        before,
        before.len() as int,
    )
}

proof fn lemma_content_len_le(lines: Seq<LyricLine>)
    ensures
        content_len(lines) <= lines.len(),
    decreases lines.len(),
{
    if lines.len() > 0 && is_blank_line(lines.last()) {
        lemma_content_len_le(lines.drop_last());
    }
}

proof fn lemma_count_nonblank_mono(lines: Seq<LyricLine>, i: int, j: int)
    requires
        0 <= i <= j,
    ensures
        count_nonblank(lines, i) <= count_nonblank(lines, j),
        count_nonblank(lines, j) <= count_nonblank(lines, i) + (j - i),
    decreases j - i,
{
    if i < j {
        lemma_count_nonblank_mono(lines, i, j - 1);
    }
}

/// The trimmed rows of a reading file with trailing empty rows removed.
fn collect_reading_rows(input: &str) -> (rows: Vec<Vec<char>>)
    ensures
        rows@.len() == reading_rows(input@).len(),
        forall|k: int| 0 <= k < rows@.len() ==> #[trigger] rows@[k]@ == reading_rows(input@)[k],
{
    let raw = text_rows(input);
    let ghost full = lyric_rows(input@).map_values(|row: Seq<char>| trim(row));
    let mut rows: Vec<Vec<char>> = Vec::new();
    let mut i: usize = 0;
    while i < raw.len()
        invariant
            i <= raw@.len(),
            raw@.len() == split_lines(strip_bom(input@)).len(),
            forall|k: int| 0 <= k < raw@.len() ==> #[trigger] raw@[k]@ == split_lines(strip_bom(input@))[k],
            full == lyric_rows(input@).map_values(|row: Seq<char>| trim(row)),
            full.len() == raw@.len(),
            rows@.len() == i,
            forall|k: int| 0 <= k < i ==> #[trigger] rows@[k]@ == full[k],
        decreases raw.len() - i,
    {
        let row = &raw[i];
        let n = row.len();
        let stripped = if n > 0 && row[n - 1] == '\r' {
            slice_chars(row, 0, n - 1)
        } else {
            slice_chars(row, 0, n)
        };
        proof {
            assert(row@.subrange(0, n as int) == row@);
            if n > 0 {
                assert(row@.subrange(0, n - 1) == row@.drop_last());
            }
            assert(stripped@ == strip_cr(row@));
        }
        rows.push(trim_chars(&stripped));
        i = i + 1;
    }
    let ghost mut left: Seq<Seq<char>> = full;
    assert(rows@.len() == left.len());
    while rows.len() > 0 && rows[rows.len() - 1].len() == 0
        invariant
            drop_trailing_empty(full) == drop_trailing_empty(left),
            rows@.len() == left.len(),
            forall|k: int| 0 <= k < rows@.len() ==> #[trigger] rows@[k]@ == left[k],
        decreases rows.len(),
    {
        rows.pop();
        proof {
            left = left.drop_last();
        }
    }
    rows
}

/// Applies an optional, user-supplied pronunciation file without changing
/// the canonical lyrics. Blank stanza rows may either be present or
/// omitted. Returns the number of lines that carry a reading afterwards, or
/// the mismatch message (leaving the lines untouched) when the row counts
/// do not fit.
pub fn apply_readings(lyrics: &mut Vec<LyricLine>, input: &str) -> (result: Result<usize, String>)
    ensures
        readings_fit(old(lyrics)@, input@) ==> {
            &&& readings_applied(final(lyrics)@, old(lyrics)@, input@)
            &&& result == Ok::<usize, String>(
                count_readings(final(lyrics)@, final(lyrics)@.len() as int) as usize,
            )
        },
        !readings_fit(old(lyrics)@, input@) ==> {
            &&& final(lyrics)@ == old(lyrics)@
            &&& result.is_err()
            &&& result->Err_0@ == line_count_mismatch(
                count_nonblank(old(lyrics)@, old(lyrics)@.len() as int),
                keep_nonempty(reading_rows(input@)).len(),
            )
        },
{
    let ghost before = lyrics@;
    let rows = collect_reading_rows(input);
    let ghost srows = reading_rows(input@);
    let mut lyric_len = lyrics.len();
    assert(before.take(before.len() as int) == before);
    while lyric_len > 0 && is_blank(&chars_of(lyrics[lyric_len - 1].original_text.as_str()))
        invariant
            lyric_len <= lyrics@.len(),
            lyrics@ == before,
            content_len(before) == content_len(before.take(lyric_len as int)),
        decreases lyric_len,
    {
        assert(before.take(lyric_len as int).drop_last() == before.take(lyric_len - 1));
        lyric_len = lyric_len - 1;
    }
    proof {
        assert(before.take(before.len() as int) == before);
        if lyric_len > 0 {
            assert(before.take(lyric_len as int).last() == before[lyric_len - 1]);
        }
        lemma_content_len_le(before);
    }
    if rows.len() == lyric_len {
        let mut i: usize = 0;
        while i < rows.len()
            invariant
                i <= rows@.len(),
                rows@.len() == srows.len(),
                srows.len() <= before.len(),
                forall|k: int| 0 <= k < rows@.len() ==> #[trigger] rows@[k]@ == srows[k],
                lyrics@.len() == before.len(),
                forall|k: int| 0 <= k < i ==> reading_applied(#[trigger] lyrics@[k], before[k], srows[k]),
                forall|k: int| i <= k < before.len() ==> #[trigger] lyrics@[k] == before[k],
            decreases rows.len() - i,
        {
            let mut line = lyrics[i].duplicate();
            set_reading(&mut line, &rows[i]);
            lyrics.set(i, line);
            i = i + 1;
        }
    } else {
        let mut kept: Vec<Vec<char>> = Vec::new();
        let mut r: usize = 0;
        while r < rows.len()
            invariant
                r <= rows@.len(),
                rows@.len() == srows.len(),
                forall|k: int| 0 <= k < rows@.len() ==> #[trigger] rows@[k]@ == srows[k],
                kept@.len() == keep_nonempty(srows.take(r as int)).len(),
                forall|k: int| 0 <= k < kept@.len() ==> #[trigger] kept@[k]@ == keep_nonempty(srows.take(r as int))[k],
            decreases rows.len() - r,
        {
            assert(srows.take(r + 1).drop_last() == srows.take(r as int));
            if rows[r].len() > 0 {
                kept.push(slice_chars(&rows[r], 0, rows[r].len()));
                assert(rows@[r as int]@.subrange(0, rows@[r as int]@.len() as int) == rows@[r as int]@);
            }
            r = r + 1;
        }
        assert(srows.take(srows.len() as int) == srows);
        let mut non_empty_lyrics: usize = 0;
        let mut j: usize = 0;
        while j < lyrics.len()
            invariant
                j <= lyrics@.len(),
                lyrics@ == before,
                non_empty_lyrics == count_nonblank(before, j as int),
                non_empty_lyrics <= j,
            decreases lyrics.len() - j,
        {
            if !is_blank(&chars_of(lyrics[j].original_text.as_str())) {
                non_empty_lyrics = non_empty_lyrics + 1;
            }
            j = j + 1;
            proof {
                lemma_count_nonblank_mono(before, (j - 1) as int, j as int);
                lemma_count_nonblank_mono(before, 0, j as int);
            }
        }
        if kept.len() != non_empty_lyrics {
            let mut message: Vec<char> = Vec::new();
            extend_str(&mut message, "カタカナ歌詞の行数が一致しません（原文の歌詞行: ");
            push_decimal(&mut message, non_empty_lyrics as u64);
            extend_str(&mut message, "、カタカナ行: ");
            push_decimal(&mut message, kept.len() as u64);
            extend_str(&mut message, "）");
            return Err(string_from(&message));
        }
        let mut next: usize = 0;
        let mut i: usize = 0;
        let kept_len = kept.len();
        while i < lyrics.len()
            invariant
                kept_len == kept@.len(),
                i <= lyrics@.len(),
                lyrics@.len() == before.len(),
                next == count_nonblank(before, i as int),
                count_nonblank(before, before.len() as int) == kept@.len(),
                kept@.len() == keep_nonempty(srows).len(),
                forall|k: int| 0 <= k < kept@.len() ==> #[trigger] kept@[k]@ == keep_nonempty(srows)[k],
                forall|k: int|
                    0 <= k < i ==> reading_applied(
                        #[trigger] lyrics@[k],
                        before[k],
                        if is_blank_line(before[k]) {
                            Seq::<char>::empty()
                        } else {
                            keep_nonempty(srows)[count_nonblank(before, k) as int]
                        },
                    ),
                forall|k: int| i <= k < before.len() ==> #[trigger] lyrics@[k] == before[k],
            decreases lyrics.len() - i,
        {
            let mut line = lyrics[i].duplicate();
            if is_blank(&chars_of(line.original_text.as_str())) {
                let empty: Vec<char> = Vec::new();
                set_reading(&mut line, &empty);
            } else {
                proof {
                    assert(line == before[i as int]);
                    assert(!is_blank_line(before[i as int]));
                    assert(count_nonblank(before, i + 1) == next + 1);
                    lemma_count_nonblank_mono(before, i + 1, before.len() as int);
                    assert(next + 1 <= kept_len);
                }
                set_reading(&mut line, &kept[next]);
                next = next + 1;
            }
            lyrics.set(i, line);
            i = i + 1;
        }
    }
    let mut count: usize = 0;
    let mut k: usize = 0;
    while k < lyrics.len()
        invariant
            k <= lyrics@.len(),
            count == count_readings(lyrics@, k as int),
            count <= k,
        decreases lyrics.len() - k,
    {
        if lyrics[k].reading_text.is_some() {
            count = count + 1;
        }
        k = k + 1;
    }
    Ok(count)
}


/// Old line `j` has already been chosen as the source of some row.
pub open spec fn is_used(sources: Seq<Option<int>>, j: int) -> bool
    decreases sources.len(),
{
    sources.len() > 0 && (sources.last() == Some(j) || is_used(sources.drop_last(), j))
}

/// The first old line at or after `j` that is still unused and has the
/// text `text`.
pub open spec fn first_match(
    previous: Seq<LyricLine>,
    text: Seq<char>,
    sources: Seq<Option<int>>,
    j: int,
) -> Option<int>
    decreases previous.len() - j,
{
    if j < 0 || j >= previous.len() {
        None
    } else if !is_used(sources, j) && previous[j].original_text@ == text {
        Some(j)
    } else {
        first_match(previous, text, sources, j + 1)
    }
}

/// The old line whose data row `i` (text `text`) takes over: the line at
/// the same position when it is unused and has the same text, otherwise
/// the first unused line with the same text.
pub open spec fn merge_source(
    previous: Seq<LyricLine>,
    text: Seq<char>,
    i: int,
    sources: Seq<Option<int>>,
) -> Option<int> {
    if 0 <= i < previous.len() && !is_used(sources, i) && previous[i].original_text@ == text {
        Some(i)
    } else {
        first_match(previous, text, sources, 0)
    }
}

/// The source chosen for each of the first `n` new rows, rows taken in order.
pub open spec fn merge_sources(previous: Seq<LyricLine>, texts: Seq<Seq<char>>, n: int) -> Seq<
    Option<int>,
>
    decreases n,
{
    if n <= 0 {
        Seq::empty()
    } else {
        let earlier = merge_sources(previous, texts, n - 1);
        earlier.push(merge_source(previous, texts[n - 1], n - 1, earlier))
    }
}

/// The rows of edited lyric text (none for empty text).
pub open spec fn edited_rows(input: Seq<char>) -> Seq<Seq<char>> {
    if input.len() == 0 {
        Seq::empty()
    } else {
        lyric_rows(input)
    }
}

/// `line` is row `i` with text `text`, carrying the reading and timing of
/// `source` when there is one and nothing otherwise.
pub open spec fn merged_line(line: LyricLine, i: int, text: Seq<char>, source: Option<LyricLine>) -> bool {
    &&& line.id == i
    &&& line.original_text@ == text
    &&& match source {
        Some(old) => {
            &&& line.reading_text == old.reading_text
            &&& line.reading_source == old.reading_source
            &&& line.start_ms == old.start_ms
            &&& line.end_ms == old.end_ms
            &&& line.confidence == old.confidence
            &&& line.timestamp_source == old.timestamp_source
        },
        None => {
            &&& line.reading_text.is_none()
            &&& line.reading_source.is_none()
            &&& line.start_ms.is_none()
            &&& line.end_ms.is_none()
            &&& line.confidence.is_none()
            &&& line.timestamp_source.is_none()
        },
    }
}

proof fn lemma_merge_sources_len(previous: Seq<LyricLine>, texts: Seq<Seq<char>>, n: int)
    requires
        n >= 0,
    ensures
        merge_sources(previous, texts, n).len() == n,
    decreases n,
{
    if n > 0 {
        lemma_merge_sources_len(previous, texts, n - 1);
    }
}

proof fn lemma_merge_sources_prefix(previous: Seq<LyricLine>, texts: Seq<Seq<char>>, m: int, n: int)
    requires
        0 <= m <= n,
    ensures
        merge_sources(previous, texts, n).len() == n,
        forall|k: int| 0 <= k < m ==> #[trigger] merge_sources(previous, texts, n)[k] == merge_sources(previous, texts, m)[k],
    decreases n - m,
{
    lemma_merge_sources_len(previous, texts, n);
    if m < n {
        lemma_merge_sources_prefix(previous, texts, m, n - 1);
        lemma_merge_sources_len(previous, texts, n - 1);
    }
}

pub proof fn lemma_is_used_exists(sources: Seq<Option<int>>, j: int)
    ensures
        is_used(sources, j) <==> exists|k: int| 0 <= k < sources.len() && sources[k] == Some(j),
    decreases sources.len(),
{
    if sources.len() > 0 {
        lemma_is_used_exists(sources.drop_last(), j);
        if is_used(sources, j) {
            if sources.last() == Some(j) {
                assert(sources[sources.len() - 1] == Some(j));
            } else {
                let k = choose|k: int| 0 <= k < sources.drop_last().len() && sources.drop_last()[k] == Some(j);
                assert(sources[k] == Some(j));
            }
        }
        if exists|k: int| 0 <= k < sources.len() && sources[k] == Some(j) {
            let k = choose|k: int| 0 <= k < sources.len() && sources[k] == Some(j);
            if k < sources.len() - 1 {
                assert(sources.drop_last()[k] == Some(j));
            }
        }
    }
}

proof fn lemma_first_match_props(
    previous: Seq<LyricLine>,
    text: Seq<char>,
    sources: Seq<Option<int>>,
    j: int,
)
    requires
        j >= 0,
    ensures
        first_match(previous, text, sources, j) matches Some(x) ==> j <= x < previous.len()
            && !is_used(sources, x) && previous[x].original_text@ == text,
    decreases previous.len() - j,
{
    if j < previous.len() {
        lemma_first_match_props(previous, text, sources, j + 1);
    }
}

/// When the edited text is merged, every old line hands its data to at most
/// one new row, and only to a row with exactly its text.
pub proof fn merge_sources_are_distinct(previous: Seq<LyricLine>, texts: Seq<Seq<char>>, n: int)
    requires
        0 <= n <= texts.len(),
    ensures
        merge_sources(previous, texts, n).len() == n,
        forall|a: int|
            0 <= a < n ==> (#[trigger] merge_sources(previous, texts, n)[a] matches Some(x) ==> 0
                <= x < previous.len() && previous[x].original_text@ == texts[a]),
        forall|a: int, b: int|
            0 <= a < b < n && merge_sources(previous, texts, n)[a].is_some() ==> #[trigger] merge_sources(previous, texts, n)[a]
                != #[trigger] merge_sources(previous, texts, n)[b],
    decreases n,
{
    lemma_merge_sources_len(previous, texts, n);
    if n > 0 {
        merge_sources_are_distinct(previous, texts, n - 1);
        let earlier = merge_sources(previous, texts, n - 1);
        let all = merge_sources(previous, texts, n);
        let chosen = merge_source(previous, texts[n - 1], n - 1, earlier);
        lemma_first_match_props(previous, texts[n - 1], earlier, 0);
        assert(all == earlier.push(chosen));
        if let Some(x) = chosen {
            assert(!is_used(earlier, x));
            lemma_is_used_exists(earlier, x);
        }
        assert forall|a: int, b: int|
            0 <= a < b < n && all[a].is_some() implies #[trigger] all[a] != #[trigger] all[b] by {
            if b < n - 1 {
                assert(all[a] == earlier[a]);
                assert(all[b] == earlier[b]);
            } else {
                assert(all[a] == earlier[a]);
                if let Some(x) = chosen {
                    if all[a] == Some(x) {
                        assert(earlier[a] == Some(x));
                    }
                }
            }
        }
        assert forall|a: int|
            0 <= a < n implies (#[trigger] all[a] matches Some(x) ==> 0 <= x < previous.len()
                && previous[x].original_text@ == texts[a]) by {
            if a < n - 1 {
                assert(all[a] == earlier[a]);
            }
        }
    }
}

/// `merged` is the result of merging `previous` with the edited text
/// `input`: one line per edited row, each carrying the data of the old line
/// [`merge_sources`] chose for it.
pub open spec fn merge_result(merged: Seq<LyricLine>, previous: Seq<LyricLine>, input: Seq<char>) -> bool {
    &&& merged.len() == edited_rows(input).len()
    &&& forall|i: int|
        0 <= i < merged.len() ==> merged_line(
            #[trigger] merged[i],
            i,
            edited_rows(input)[i],
            match merge_sources(previous, edited_rows(input), merged.len() as int)[i] {
                Some(j) => Some(previous[j]),
                None => None,
            },
        )
}

/// Re-bases line data after the lyric text was edited: the edited text is
/// parsed (empty text gives no lines) and each new row takes over the
/// reading and timing of an unused old line with the same text, preferring
/// the line at the same position. Ids become positions.
pub fn merge_original_lyrics(previous: Vec<LyricLine>, input: &str) -> (merged: Vec<LyricLine>)
    ensures
        merge_result(merged@, previous@, input@),
{
    let ghost texts = edited_rows(input@);
    let ghost prev = previous@;
    let parsed: Vec<LyricLine> = if chars_of(input).len() == 0 {
        Vec::new()
    } else {
        parse_lyrics(input)
    };
    assert(parsed@.len() == texts.len());
    let mut used: Vec<bool> = Vec::new();
    let mut u: usize = 0;
    while u < previous.len()
        invariant
            u <= previous@.len(),
            used@.len() == u,
            forall|k: int| 0 <= k < u ==> !#[trigger] used@[k],
        decreases previous.len() - u,
    {
        used.push(false);
        u = u + 1;
    }
    let mut merged: Vec<LyricLine> = Vec::new();
    let mut i: usize = 0;
    while i < parsed.len()
        invariant
            i <= parsed@.len(),
            parsed@.len() == texts.len(),
            prev == previous@,
            texts == edited_rows(input@),
            forall|k: int| 0 <= k < parsed@.len() ==> #[trigger] parsed@[k].original_text@ == texts[k],
            used@.len() == previous@.len(),
            forall|k: int| 0 <= k < used@.len() ==> #[trigger] used@[k] == is_used(merge_sources(prev, texts, i as int), k),
            merged@.len() == i,
            forall|k: int|
                0 <= k < i ==> merged_line(
                    #[trigger] merged@[k],
                    k,
                    texts[k],
                    match merge_sources(prev, texts, i as int)[k] {
                        Some(j) => Some(prev[j]),
                        None => None,
                    },
                ),
        decreases parsed.len() - i,
    {
        let ghost earlier = merge_sources(prev, texts, i as int);
        let text = &parsed[i].original_text;
        let mut source: Option<usize> = None;
        if i < previous.len() && !used[i] && previous[i].original_text == *text {
            source = Some(i);
        } else {
            let mut j: usize = 0;
            while j < previous.len() && source.is_none()
                invariant
                    j <= previous@.len(),
                    prev == previous@,
                    used@.len() == previous@.len(),
                    forall|k: int| 0 <= k < used@.len() ==> #[trigger] used@[k] == is_used(earlier, k),
                    source.is_none() ==> first_match(prev, text@, earlier, 0) == first_match(
                        prev,
                        text@,
                        earlier,
                        j as int,
                    ),
                    source matches Some(x) ==> first_match(prev, text@, earlier, 0) == Some(x as int)
                        && x < previous@.len(),
                decreases previous.len() - j,
            {
                if !used[j] && previous[j].original_text == *text {
                    source = Some(j);
                }
                j = j + 1;
            }
        }
        proof {
            lemma_merge_sources_len(prev, texts, i as int);
            assert(merge_sources(prev, texts, i + 1) == earlier.push(merge_source(prev, texts[i as int], i as int, earlier)));
            assert(source == match merge_source(prev, texts[i as int], i as int, earlier) {
                Some(x) => Some(x as usize),
                None => None::<usize>,
            });
        }
        let mut line = LyricLine::new(i, parsed[i].original_text.clone());
        match source {
            Some(s) => {
                let old = &previous[s];
                line.reading_text = clone_opt_string(&old.reading_text);
                line.reading_source = old.reading_source;
                line.start_ms = old.start_ms;
                line.end_ms = old.end_ms;
                line.confidence = old.confidence;
                line.timestamp_source = old.timestamp_source;
                used.set(s, true);
            },
            None => {},
        }
        merged.push(line);
        proof {
            let now = merge_sources(prev, texts, i + 1);
            assert forall|k: int| 0 <= k < used@.len() implies #[trigger] used@[k] == is_used(now, k) by {
                assert(now.drop_last() == earlier);
            }
            lemma_merge_sources_prefix(prev, texts, i as int, i + 1);
        }
        i = i + 1;
    }
    merged
}

} // verus!
