//! The editor's two text boxes: the original lyrics and their readings, one
//! line per row.
use vstd::prelude::*;

use crate::domain::lyrics::{
    edited_rows, lemma_is_used_exists, lyric_rows, merge_result, merge_source, merge_sources,
    merged_line, reading_applied, set_reading,
};
use crate::domain::project::LyricLine;
use crate::text::{
    chars_of, decimal, extend_chars, extend_str, lemma_split_push, lines_of, push_decimal,
    split_lines, string_from, strip_bom, strip_cr, trim, trim_chars,
};

verus! {

/// Texts joined with `\n`, as `join("\n")` does.
pub open spec fn join_lines(texts: Seq<Seq<char>>) -> Seq<char>
    decreases texts.len(),
{
    if texts.len() == 0 {
        Seq::empty()
    } else if texts.len() == 1 {
        texts[0]
    } else {
        join_lines(texts.drop_last()) + seq!['\n'] + texts.last()
    }
}

/// The original text of each line.
pub open spec fn original_texts(lines: Seq<LyricLine>) -> Seq<Seq<char>> {
    lines.map_values(|l: LyricLine| l.original_text@)
}

/// The reading of each line, empty where there is none.
pub open spec fn reading_texts(lines: Seq<LyricLine>) -> Seq<Seq<char>> {
    lines.map_values(
        |l: LyricLine|
            match l.reading_text {
                Some(r) => r@,
                None => Seq::<char>::empty(),
            },
    )
}

/// Joins texts with `\n`.
fn join_texts(texts: &Vec<Vec<char>>) -> (s: String)
    ensures
        s@ == join_lines(texts@.map_values(|t: Vec<char>| t@)),
{
    let ghost views = texts@.map_values(|t: Vec<char>| t@);
    let mut out: Vec<char> = Vec::new();
    let mut k: usize = 0;
    assert(views.take(0) == Seq::<Seq<char>>::empty());
    while k < texts.len()
        invariant
            k <= texts.len(),
            views == texts@.map_values(|t: Vec<char>| t@),
            out@ == join_lines(views.take(k as int)),
        decreases texts.len() - k,
    {
        let ghost before = out@;
        if k > 0 {
            out.push('\n');
        }
        extend_chars(&mut out, &texts[k]);
        assert(views.take(k + 1).drop_last() == views.take(k as int));
        if k == 0 {
            assert(out@ == views[0]);
        } else {
            assert(out@ == before + seq!['\n'] + views[k as int]);
        }
        k = k + 1;
    }
    assert(views.take(texts.len() as int) == views);
    string_from(&out)
}

/// The text of the original lyrics box: every line's text, one per row.
pub fn original_input(lyrics: &Vec<LyricLine>) -> (s: String)
    ensures
        s@ == join_lines(original_texts(lyrics@)),
{
    let mut texts: Vec<Vec<char>> = Vec::new();
    let mut k: usize = 0;
    while k < lyrics.len()
        invariant
            k <= lyrics.len(),
            texts@.len() == k,
            forall|j: int| 0 <= j < k ==> #[trigger] texts@[j]@ == lyrics@[j].original_text@,
        decreases lyrics.len() - k,
    {
        texts.push(chars_of(lyrics[k].original_text.as_str()));
        k = k + 1;
    }
    assert(texts@.map_values(|t: Vec<char>| t@) == original_texts(lyrics@));
    join_texts(&texts)
}

/// The text of the readings box: every line's reading (empty where there
/// is none), one per row.
pub fn reading_input(lyrics: &Vec<LyricLine>) -> (s: String)
    ensures
        s@ == join_lines(reading_texts(lyrics@)),
{
    let mut texts: Vec<Vec<char>> = Vec::new();
    let mut k: usize = 0;
    while k < lyrics.len()
        invariant
            k <= lyrics.len(),
            texts@.len() == k,
            forall|j: int| 0 <= j < k ==> #[trigger] texts@[j]@ == reading_texts(lyrics@)[j],
        decreases lyrics.len() - k,
    {
        let row = match &lyrics[k].reading_text {
            Some(r) => chars_of(r.as_str()),
            None => Vec::new(),
        };
        texts.push(row);
        k = k + 1;
    }
    assert(texts@.map_values(|t: Vec<char>| t@) == reading_texts(lyrics@));
    join_texts(&texts)
}

/// The rows of the readings box: split at `\n`, one trailing `\r` dropped
/// and each row trimmed.
pub open spec fn input_rows(input: Seq<char>) -> Seq<Seq<char>> {
    split_lines(input).map_values(|row: Seq<char>| trim(strip_cr(row)))
}

/// Row `k`, or an empty row past the end.
pub open spec fn row_at(rows: Seq<Seq<char>>, k: int) -> Seq<char> {
    if k < rows.len() {
        rows[k]
    } else {
        Seq::empty()
    }
}

/// The number of non-empty rows among the first `n`.
pub open spec fn count_filled(rows: Seq<Seq<char>>, n: int) -> nat
    decreases n,
{
    if n <= 0 {
        0
    } else {
        count_filled(rows, n - 1) + if rows[n - 1].len() > 0 {
            1nat
        } else {
            0nat
        }
    }
}

/// The message when the readings box has more rows than there are lines.
pub open spec fn too_many_readings_error(lines: nat, rows: nat) -> Seq<char> {
    "カタカナ歌詞が原文より多くなっています（原文"@ + decimal(lines) + "行 / カタカナ"@ + decimal(
        rows,
    ) + "行）"@
}

/// Applies the readings box to the lines, row by row: a non-empty row
/// becomes the line's manual reading and an empty or missing row clears
/// it. More rows than lines is refused and changes nothing. Returns how
/// many lines got a reading.
pub fn apply_reading_input(lyrics: &mut Vec<LyricLine>, input: &str) -> (r: Result<usize, String>)
    ensures
        input_rows(input@).len() > old(lyrics)@.len() ==> {
            &&& r is Err
            &&& r->Err_0@ == too_many_readings_error(
                old(lyrics)@.len(),
                input_rows(input@).len(),
            )
            &&& final(lyrics)@ == old(lyrics)@
        },
        input_rows(input@).len() <= old(lyrics)@.len() ==> {
            &&& r == Ok::<usize, String>(
                count_filled(input_rows(input@), input_rows(input@).len() as int) as usize,
            )
            &&& final(lyrics)@.len() == old(lyrics)@.len()
            &&& forall|k: int|
                0 <= k < old(lyrics)@.len() ==> reading_applied(
                    #[trigger] final(lyrics)@[k],
                    old(lyrics)@[k],
                    row_at(input_rows(input@), k),
                )
        },
{
    let pieces = lines_of(input);
    let ghost rows = input_rows(input@);
    let mut trimmed: Vec<Vec<char>> = Vec::new();
    let mut k: usize = 0;
    while k < pieces.len()
        invariant
            k <= pieces.len(),
            pieces@.len() == split_lines(input@).len(),
            forall|j: int| 0 <= j < pieces@.len() ==> #[trigger] pieces@[j]@ == split_lines(input@)[j],
            rows == input_rows(input@),
            trimmed@.len() == k,
            forall|j: int| 0 <= j < k ==> #[trigger] trimmed@[j]@ == rows[j],
        decreases pieces.len() - k,
    {
        let piece = &pieces[k];
        let n = if piece.len() > 0 && piece[piece.len() - 1] == '\r' {
            piece.len() - 1
        } else {
            piece.len()
        };
        let mut body: Vec<char> = Vec::new();
        let mut m: usize = 0;
        while m < n
            invariant
                m <= n <= piece.len(),
                body@ == piece@.take(m as int),
            decreases n - m,
        {
            body.push(piece[m]);
            m = m + 1;
            assert(piece@.take(m as int) == piece@.take(m - 1).push(piece@[m - 1]));
        }
        assert(body@ == strip_cr(piece@));
        trimmed.push(trim_chars(&body));
        k = k + 1;
    }
    if trimmed.len() > lyrics.len() {
        let mut m = chars_of("カタカナ歌詞が原文より多くなっています（原文");
        push_decimal(&mut m, lyrics.len() as u64);
        extend_str(&mut m, "行 / カタカナ");
        push_decimal(&mut m, trimmed.len() as u64);
        extend_str(&mut m, "行）");
        return Err(string_from(&m));
    }
    let mut count: usize = 0;
    let mut i: usize = 0;
    let ghost original = lyrics@;
    while i < lyrics.len()
        invariant
            i <= lyrics@.len(),
            lyrics@.len() == original.len(),
            original == old(lyrics)@,
            rows.len() <= original.len(),
            trimmed@.len() == rows.len(),
            forall|j: int| 0 <= j < rows.len() ==> #[trigger] trimmed@[j]@ == rows[j],
            count == count_filled(rows, if i < rows.len() { i as int } else { rows.len() as int }),
            count <= i,
            forall|j: int| 0 <= j < i ==> reading_applied(#[trigger] lyrics@[j], original[j], row_at(rows, j)),
            forall|j: int| i <= j < original.len() ==> #[trigger] lyrics@[j] == original[j],
        decreases lyrics.len() - i,
    {
        let empty: Vec<char> = Vec::new();
        let row = if i < trimmed.len() {
            &trimmed[i]
        } else {
            &empty
        };
        let mut line = lyrics[i].duplicate();
        set_reading(&mut line, row);
        if row.len() > 0 {
            count = count + 1;
        }
        lyrics[i] = line;
        i = i + 1;
    }
    Ok(count)
}

proof fn lemma_split_append(s: Seq<char>, t: Seq<char>)
    requires
        !t.contains('\n'),
    ensures
        split_lines(s + t) == split_lines(s).update(
            split_lines(s).len() - 1,
            split_lines(s).last() + t,
        ),
        split_lines(s + t).len() == split_lines(s).len(),
    decreases t.len(),
{
    lemma_split_nonempty(s);
    if t.len() == 0 {
        assert(s + t == s);
        assert(split_lines(s).last() + t == split_lines(s).last());
        assert(split_lines(s).update(split_lines(s).len() - 1, split_lines(s).last()) == split_lines(s));
    } else {
        let u = t.drop_last();
        let c = t.last();
        assert(!u.contains('\n')) by {
            if u.contains('\n') {
                let k = choose|k: int| 0 <= k < u.len() && u[k] == '\n';
                assert(t[k] == '\n');
            }
        }
        assert(c != '\n') by {
            assert(t[t.len() - 1] == c);
        }
        lemma_split_append(s, u);
        assert(s + t == (s + u).push(c));
        lemma_split_push(s + u, c);
        assert(split_lines(s).last() + u + seq![c] == split_lines(s).last() + t);
        assert((split_lines(s).last() + u).push(c) == split_lines(s).last() + t);
    }
}

proof fn lemma_split_nonempty(s: Seq<char>)
    ensures
        split_lines(s).len() >= 1,
    decreases s.len(),
{
    if s.len() > 0 {
        lemma_split_nonempty(s.drop_last());
    }
}

proof fn lemma_split_join(texts: Seq<Seq<char>>)
    requires
        texts.len() >= 1,
        forall|k: int| 0 <= k < texts.len() ==> !(#[trigger] texts[k]).contains('\n'),
    ensures
        split_lines(join_lines(texts)) == texts,
    decreases texts.len(),
{
    if texts.len() == 1 {
        lemma_split_append(Seq::empty(), texts[0]);
        assert(Seq::<char>::empty() + texts[0] == texts[0]);
        assert(split_lines(Seq::<char>::empty()) == seq![Seq::<char>::empty()]);
        assert(Seq::<char>::empty() + texts[0] == texts[0]);
        assert(split_lines(join_lines(texts)) == seq![texts[0]]);
        assert(texts == seq![texts[0]]);
    } else {
        let rest = texts.drop_last();
        lemma_split_join(rest);
        let j = join_lines(rest);
        lemma_split_push(j, '\n');
        assert(j + seq!['\n'] == j.push('\n'));
        lemma_split_append(j.push('\n'), texts.last());
        assert(join_lines(texts) == j.push('\n') + texts.last());
        assert(Seq::<char>::empty() + texts.last() == texts.last());
        assert(split_lines(join_lines(texts)) == rest.push(texts.last()));
        assert(texts == rest.push(texts.last()));
    }
}

proof fn lemma_sources_identity(lines: Seq<LyricLine>, n: int)
    requires
        0 <= n <= lines.len(),
    ensures
        merge_sources(lines, original_texts(lines), n) == Seq::new(n as nat, |k: int| Some(k)),
    decreases n,
{
    if n > 0 {
        lemma_sources_identity(lines, n - 1);
        let earlier = merge_sources(lines, original_texts(lines), n - 1);
        lemma_is_used_exists(earlier, n - 1);
        assert(!(exists|k: int| 0 <= k < earlier.len() && earlier[k] == Some(n - 1)));
        assert(merge_source(lines, original_texts(lines)[n - 1], n - 1, earlier) == Some(n - 1));
        assert(merge_sources(lines, original_texts(lines), n) == earlier.push(Some(n - 1)));
    }
}

/// Applying the original-lyrics box unchanged keeps every line: when no
/// line's text holds a line break or ends with `\r`, and the box text is
/// not empty and does not begin with a byte order mark, merging
/// [`original_input`] back gives the same lines, each keeping its reading
/// and timing, numbered by position.
pub proof fn unchanged_text_keeps_lines(lines: Seq<LyricLine>, merged: Seq<LyricLine>)
    requires
        forall|k: int| 0 <= k < lines.len() ==> !(#[trigger] lines[k]).original_text@.contains('\n'),
        forall|k: int|
            0 <= k < lines.len() ==> !((#[trigger] lines[k]).original_text@.len() > 0
                && lines[k].original_text@.last() == '\r'),
        join_lines(original_texts(lines)).len() > 0,
        join_lines(original_texts(lines))[0] != '\u{feff}',
        merge_result(merged, lines, join_lines(original_texts(lines))),
    ensures
        merged.len() == lines.len(),
        forall|i: int|
            0 <= i < lines.len() ==> merged_line(
                #[trigger] merged[i],
                i,
                lines[i].original_text@,
                Some(lines[i]),
            ),
{
    let texts = original_texts(lines);
    let input = join_lines(texts);
    assert(lines.len() >= 1) by {
        if lines.len() == 0 {
            assert(input == Seq::<char>::empty());
        }
    }
    lemma_split_join(texts);
    assert(strip_bom(input) == input);
    assert(lyric_rows(input) == texts) by {
        assert forall|k: int| 0 <= k < texts.len() implies #[trigger] strip_cr(texts[k]) == texts[k] by {
            assert(texts[k] == lines[k].original_text@);
        }
    }
    assert(edited_rows(input) == texts);
    lemma_sources_identity(lines, lines.len() as int);
}

} // verus!
