//! Renders a [`Project`] as standard LRC text.
use vstd::prelude::*;

use crate::domain::lyrics::is_blank_line;
use crate::domain::project::{LyricLine, Project};
use crate::text::{
    after_prefix, chars_of, result_view, contains_line_break, decimal, extend_chars, extend_str, has_line_break, is_blank,
    push_decimal, push_two_digits, string_from, two_digits,
};

verus! {

/// `[mm:ss.cc]` for a time in milliseconds, truncated to centiseconds.
pub open spec fn timestamp_text(ms: nat) -> Seq<char> {
    let cs = ms / 10;
    "["@ + two_digits(cs / 6000) + ":"@ + two_digits((cs % 6000) / 100) + "."@ + two_digits(
        cs % 100,
    ) + "]"@
}

/// The message for a line whose text holds a line break.
pub open spec fn line_break_error(id: nat) -> Seq<char> {
    "lyric line "@ + decimal(id) + " contains a newline"@
}

/// The message for a non-blank line without a start time.
pub open spec fn missing_start_error(id: nat) -> Seq<char> {
    "lyric line "@ + decimal(id) + " has text but no start timestamp"@
}

/// The message for a line that starts before the preceding rendered line.
pub open spec fn reversed_error(id: nat) -> Seq<char> {
    "lyric line "@ + decimal(id) + " is earlier than the preceding line"@
}

/// The LRC body for `lines`, the last rendered start time being `previous`:
/// blank lines are skipped; every other line needs a start time no earlier
/// than the previous one and text without line breaks, and becomes
/// `[mm:ss.cc]text\n`. The first violation, in line order, is the error.
pub open spec fn render_lines(lines: Seq<LyricLine>, previous: Option<u64>) -> Result<
    Seq<char>,
    Seq<char>,
>
    decreases lines.len(),
{
    if lines.len() == 0 {
        Ok(Seq::empty())
    } else {
        let line = lines[0];
        if is_blank_line(line) {
            render_lines(lines.drop_first(), previous)
        } else if has_line_break(line.original_text@) {
            Err(line_break_error(line.id as nat))
        } else {
            match line.start_ms {
                None => Err(missing_start_error(line.id as nat)),
                Some(t) => if previous matches Some(p) && t < p {
                    Err(reversed_error(line.id as nat))
                } else {
                    after_prefix(
                        timestamp_text(t as nat) + line.original_text@ + "\n"@,
                        render_lines(lines.drop_first(), Some(t)),
                    )
                },
            }
        }
    }
}

/// The whole LRC document: title and artist must not hold line breaks;
/// the document is `[ti:title]\n[ar:artist]\n` followed by the body.
pub open spec fn render_spec(project: Project) -> Result<Seq<char>, Seq<char>> {
    if has_line_break(project.title@) {
        Err("title must not contain a newline"@)
    } else if has_line_break(project.artist@) {
        Err("artist must not contain a newline"@)
    } else {
        after_prefix(
            "[ti:"@ + project.title@ + "]\n[ar:"@ + project.artist@ + "]\n"@,
            render_lines(project.lyrics@, None),
        )
    }
}

/// Renders standard LRC. Times are truncated to centiseconds, as the
/// `[mm:ss.cc]` convention has it.
///
/// Blank lyric lines are skipped entirely (LRC has no notion of an empty
/// row). Every other line needs a `start_ms`, times must not decrease, and
/// neither the title, the artist nor a lyric text may contain a line break
/// (it would let the text inject arbitrary `[tag:]` rows). Any violation
/// fails the whole rendering instead of producing partial output.
pub fn render(project: &Project) -> (r: Result<String, String>)
    ensures
        result_view(r) == render_spec(*project),
{
    let title = chars_of(project.title.as_str());
    let artist = chars_of(project.artist.as_str());
    if contains_line_break(&title) {
        proof {
            reveal_strlit("title");
            reveal_strlit(" must not contain a newline");
            reveal_strlit("title must not contain a newline");
            assert("title"@ + " must not contain a newline"@ =~= "title must not contain a newline"@);
        }
        return Err(validate_metadata_error("title"));
    }
    if contains_line_break(&artist) {
        proof {
            reveal_strlit("artist");
            reveal_strlit(" must not contain a newline");
            reveal_strlit("artist must not contain a newline");
            assert("artist"@ + " must not contain a newline"@ =~= "artist must not contain a newline"@);
        }
        return Err(validate_metadata_error("artist"));
    }
    let mut output: Vec<char> = Vec::new();
    extend_str(&mut output, "[ti:");
    extend_chars(&mut output, &title);
    extend_str(&mut output, "]\n[ar:");
    extend_chars(&mut output, &artist);
    extend_str(&mut output, "]\n");
    let ghost lines = project.lyrics@;
    let ghost whole = render_spec(*project);
    let mut previous: Option<u64> = None;
    let mut i: usize = 0;
    assert(lines.skip(0) == lines);
    while i < project.lyrics.len()
        invariant
            i <= lines.len(),
            lines == project.lyrics@,
            whole == render_spec(*project),
            whole == after_prefix(output@, render_lines(lines.skip(i as int), previous)),
        decreases lines.len() - i,
    {
        let line = &project.lyrics[i];
        let text = chars_of(line.original_text.as_str());
        proof {
            assert(lines.skip(i as int)[0] == lines[i as int]);
            assert(lines.skip(i as int).drop_first() == lines.skip(i + 1));
        }
        if !is_blank(&text) {
            if contains_line_break(&text) {
                return Err(line_error(line.id, " contains a newline"));
            }
            match line.start_ms {
                None => {
                    return Err(line_error(line.id, " has text but no start timestamp"));
                },
                Some(t) => {
                    if let Some(p) = previous {
                        if t < p {
                            return Err(line_error(line.id, " is earlier than the preceding line"));
                        }
                    }
                    let ghost before = output@;
                    push_timestamp(&mut output, t);
                    extend_chars(&mut output, &text);
                    output.push('\n');
                    proof {
                        let piece = timestamp_text(t as nat) + text@ + "\n"@;
                        assert(output@ == before + piece) by {
                            reveal_strlit("\n");
                        }
                        lemma_after_prefix_assoc(before, piece, render_lines(lines.skip(i + 1), Some(t)));
                    }
                    previous = Some(t);
                },
            }
        }
        i = i + 1;
    }
    proof {
        assert(lines.skip(lines.len() as int) == Seq::<LyricLine>::empty());
        assert(output@ + Seq::<char>::empty() == output@);
    }
    Ok(string_from(&output))
}

proof fn lemma_after_prefix_assoc(a: Seq<char>, b: Seq<char>, r: Result<Seq<char>, Seq<char>>)
    ensures
        after_prefix(a, after_prefix(b, r)) == after_prefix(a + b, r),
{
    if let Ok(t) = r {
        assert(a + (b + t) =~= (a + b) + t);
    }
}

fn validate_metadata_error(field: &str) -> (e: String)
    ensures
        e@ == field@ + " must not contain a newline"@,
{
    let mut out: Vec<char> = Vec::new();
    extend_str(&mut out, field);
    extend_str(&mut out, " must not contain a newline");
    string_from(&out)
}

fn line_error(id: usize, tail: &str) -> (e: String)
    ensures
        e@ == "lyric line "@ + decimal(id as nat) + tail@,
{
    let mut out: Vec<char> = Vec::new();
    extend_str(&mut out, "lyric line ");
    push_decimal(&mut out, id as u64);
    extend_str(&mut out, tail);
    string_from(&out)
}

/// Appends `[mm:ss.cc]` for `milliseconds` to `out`.
fn push_timestamp(out: &mut Vec<char>, milliseconds: u64)
    ensures
        final(out)@ == old(out)@ + timestamp_text(milliseconds as nat),
{
    let centiseconds = milliseconds / 10;
    let minutes = centiseconds / 6_000;
    let seconds = (centiseconds % 6_000) / 100;
    let remainder = centiseconds % 100;
    let ghost start = out@;
    out.push('[');
    push_two_digits(out, minutes);
    out.push(':');
    push_two_digits(out, seconds);
    out.push('.');
    push_two_digits(out, remainder);
    out.push(']');
    proof {
        reveal_strlit("[");
        reveal_strlit(":");
        reveal_strlit(".");
        reveal_strlit("]");
        assert(out@ == start + timestamp_text(milliseconds as nat));
    }
}

} // verus!
