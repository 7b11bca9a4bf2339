//! Generating katakana pronunciation guides for the lines of a project.
//! Readings the user wrote or imported are never overwritten.
use vstd::prelude::*;

use super::english::{english_guide, EnglishPronunciationEngine};
use super::PronunciationEngine;
use crate::domain::project::{LyricLine, ReadingSource};
use crate::text::{
    compare_text, lemma_text_less_transitive, lemma_text_order, str_is_blank, strs, text_less,
    trim, TextOrder,
};

verus! {

/// A line that generation leaves alone: a blank line, or one whose reading
/// the user wrote or imported.
pub open spec fn keeps_reading(line: LyricLine) -> bool {
    trim(line.original_text@).len() == 0 || line.reading_source == Some(ReadingSource::Manual)
}

/// The pronunciation guide of a line's text with the dictionary
/// `dictionary`.
pub open spec fn guide_of(dictionary: Seq<char>, line: LyricLine) -> Result<
    (Seq<char>, Seq<Seq<char>>, Seq<Seq<char>>),
    Seq<char>,
> {
    english_guide(dictionary, line.original_text@)
}

/// `after` is `before` with the generated reading `reading`: an empty
/// reading clears the reading, any other becomes a generated reading.
pub open spec fn guide_applied(after: LyricLine, before: LyricLine, reading: Seq<char>) -> bool {
    &&& after.id == before.id
    &&& after.original_text == before.original_text
    &&& after.start_ms == before.start_ms
    &&& after.end_ms == before.end_ms
    &&& after.confidence == before.confidence
    &&& after.timestamp_source == before.timestamp_source
    &&& if reading.len() == 0 {
        after.reading_text is None && after.reading_source is None
    } else {
        &&& after.reading_text is Some
        &&& after.reading_text->0@ == reading
        &&& after.reading_source == Some(ReadingSource::Generated)
    }
}

/// Line `after` is line `before` after generation: unchanged where the
/// reading is kept, otherwise carrying its guide's reading.
pub open spec fn regenerated(dictionary: Seq<char>, after: LyricLine, before: LyricLine) -> bool {
    if keeps_reading(before) {
        after == before
    } else {
        guide_of(dictionary, before) is Ok && guide_applied(after, before, guide_of(dictionary, before)->Ok_0.0)
    }
}

/// The number of lines that get a generated reading.
pub open spec fn count_generated(lines: Seq<LyricLine>) -> nat
    decreases lines.len(),
{
    if lines.len() == 0 {
        0
    } else {
        count_generated(lines.drop_last()) + if keeps_reading(lines.last()) {
            0nat
        } else {
            1nat
        }
    }
}

/// The number of non-blank lines whose manual reading is kept.
pub open spec fn count_preserved(lines: Seq<LyricLine>) -> nat
    decreases lines.len(),
{
    if lines.len() == 0 {
        0
    } else {
        count_preserved(lines.drop_last()) + if trim(lines.last().original_text@).len() > 0
            && lines.last().reading_source == Some(ReadingSource::Manual) {
            1nat
        } else {
            0nat
        }
    }
}

/// Every word that the dictionary lacked in a line that gets a generated
/// reading.
pub open spec fn unknown_union(dictionary: Seq<char>, lines: Seq<LyricLine>) -> Set<Seq<char>>
    decreases lines.len(),
{
    if lines.len() == 0 {
        Set::empty()
    } else {
        let last = lines.last();
        unknown_union(dictionary, lines.drop_last()) + if !keeps_reading(last) && guide_of(dictionary, last) is Ok {
            guide_of(dictionary, last)->Ok_0.2.to_set()
        } else {
            Set::empty()
        }
    }
}

/// Texts in strictly increasing [`text_less`] order.
pub open spec fn sorted_texts(s: Seq<Seq<char>>) -> bool {
    forall|i: int, j: int| 0 <= i < j < s.len() ==> text_less(#[trigger] s[i], #[trigger] s[j])
}

/// What a generation run did: how many lines got a reading, how many manual
/// readings were kept, and the words the dictionary lacked (sorted, each
/// once).
#[derive(Debug, Clone, PartialEq)]
pub struct ReadingReport {
    pub generated: usize,
    pub preserved: usize,
    pub unknown_words: Vec<String>,
}

/// Adds a text to a sorted set of texts.
fn insert_text(set: &mut Vec<String>, word: String)
    requires
        sorted_texts(strs(old(set)@)),
    ensures
        sorted_texts(strs(final(set)@)),
        forall|x: Seq<char>| strs(final(set)@).contains(x) <==> (strs(old(set)@).contains(x) || x == word@),
{
    let ghost before = strs(set@);
    let mut p: usize = 0;
    while p < set.len() && compare_text(set[p].as_str(), word.as_str()) == TextOrder::Less
        invariant
            strs(set@) == before,
            p <= set@.len(),
            forall|j: int| 0 <= j < p ==> text_less(#[trigger] before[j], word@),
        decreases set.len() - p,
    {
        p = p + 1;
    }
    if p < set.len() && compare_text(set[p].as_str(), word.as_str()) == TextOrder::Equal {
        assert(before[p as int] == word@);
        assert(before.contains(word@));
        return;
    }
    proof {
        if p < before.len() {
            lemma_text_order(before[p as int], word@);
        }
    }
    let ghost w = word@;
    set.insert(p, word);
    let ghost after = strs(set@);
    assert(after == before.insert(p as int, w));
    assert forall|i: int, j: int| 0 <= i < j < after.len() implies text_less(
        #[trigger] after[i],
        #[trigger] after[j],
    ) by {
        if j < p {
            assert(after[i] == before[i] && after[j] == before[j]);
        } else if j == p {
            assert(after[i] == before[i]);
        } else if i < p {
            assert(after[i] == before[i] && after[j] == before[j - 1]);
        } else if i == p {
            assert(after[j] == before[j - 1]);
            if j - 1 > p {
                lemma_text_less_transitive(w, before[p as int], before[j - 1]);
            }
        } else {
            assert(after[i] == before[i - 1] && after[j] == before[j - 1]);
        }
    }
    assert forall|x: Seq<char>| after.contains(x) <==> (before.contains(x) || x == w) by {
        if after.contains(x) {
            let k = choose|k: int| 0 <= k < after.len() && after[k] == x;
            if k < p {
                assert(before[k] == x);
            } else if k > p {
                assert(before[k - 1] == x);
            }
        }
        if before.contains(x) {
            let k = choose|k: int| 0 <= k < before.len() && before[k] == x;
            if k < p {
                assert(after[k] == x);
            } else {
                assert(after[k + 1] == x);
            }
        }
        if x == w {
            assert(after[p as int] == w);
        }
    }
}

proof fn lemma_prefix_step(lines: Seq<LyricLine>, i: int)
    requires
        0 <= i < lines.len(),
    ensures
        lines.take(i + 1).drop_last() == lines.take(i),
        lines.take(i + 1).last() == lines[i],
{
}

/// Generates the katakana reading of every non-blank line whose reading the
/// user did not write or import, with the English pronunciation engine
/// `engine`.
/// A blank line and a manual reading are left alone. The first line whose
/// guide cannot be made stops the run with its error; the lines before it
/// keep their new readings.
pub fn generate_readings(engine: &EnglishPronunciationEngine, lyrics: &mut Vec<LyricLine>) -> (r: Result<ReadingReport, String>)
    ensures
        final(lyrics)@.len() == old(lyrics)@.len(),
        forall|k: int|
            0 <= k < old(lyrics)@.len() && (#[trigger] old(lyrics)@[k]).reading_source == Some(
                ReadingSource::Manual,
            ) ==> final(lyrics)@[k] == old(lyrics)@[k],
        match r {
            Ok(report) => {
                &&& forall|k: int|
                    0 <= k < old(lyrics)@.len() ==> regenerated(
                        engine.dictionary(),
                        #[trigger] final(lyrics)@[k],
                        old(lyrics)@[k],
                    )
                &&& report.generated == count_generated(old(lyrics)@)
                &&& report.preserved == count_preserved(old(lyrics)@)
                &&& sorted_texts(strs(report.unknown_words@))
                &&& forall|w: Seq<char>|
                    strs(report.unknown_words@).contains(w) <==> unknown_union(
                        engine.dictionary(),
                        old(lyrics)@,
                    ).contains(w)
            },
            Err(e) => exists|f: int|
                {
                    &&& 0 <= f < old(lyrics)@.len()
                    &&& !keeps_reading(#[trigger] old(lyrics)@[f])
                    &&& guide_of(engine.dictionary(), old(lyrics)@[f]) == Err::<
                        (Seq<char>, Seq<Seq<char>>, Seq<Seq<char>>),
                        Seq<char>,
                    >(e@)
                    &&& forall|k: int|
                        0 <= k < f ==> regenerated(engine.dictionary(), #[trigger] final(lyrics)@[k], old(lyrics)@[k])
                    &&& forall|k: int|
                        f <= k < old(lyrics)@.len() ==> #[trigger] final(lyrics)@[k] == old(
                            lyrics,
                        )@[k]
                },
        },
{
    let ghost original = lyrics@;
    let mut generated: usize = 0;
    let mut preserved: usize = 0;
    let mut unknown: Vec<String> = Vec::new();
    let mut i: usize = 0;
    assert(original.take(0) == Seq::<LyricLine>::empty());
    assert(strs(unknown@) == Seq::<Seq<char>>::empty());
    while i < lyrics.len()
        invariant
            i <= lyrics@.len(),
            lyrics@.len() == original.len(),
            original == old(lyrics)@,
            forall|k: int| 0 <= k < i ==> regenerated(engine.dictionary(), #[trigger] lyrics@[k], original[k]),
            forall|k: int| i <= k < original.len() ==> #[trigger] lyrics@[k] == original[k],
            generated == count_generated(original.take(i as int)),
            preserved == count_preserved(original.take(i as int)),
            generated <= i,
            preserved <= i,
            sorted_texts(strs(unknown@)),
            forall|w: Seq<char>|
                #[trigger] strs(unknown@).contains(w) <==> unknown_union(engine.dictionary(), original.take(i as int)).contains(w),
        decreases lyrics.len() - i,
    {
        proof {
            lemma_prefix_step(original, i as int);
        }
        let blank = str_is_blank(lyrics[i].original_text.as_str());
        let manual = match lyrics[i].reading_source {
            Some(ReadingSource::Manual) => true,
            _ => false,
        };
        if blank {
            assert(unknown_union(engine.dictionary(), original.take(i + 1)) == unknown_union(engine.dictionary(), original.take(i as int)));
        } else if manual {
            preserved = preserved + 1;
            assert(unknown_union(engine.dictionary(), original.take(i + 1)) == unknown_union(engine.dictionary(), original.take(i as int)));
        } else {
            let result = engine.generate(lyrics[i].original_text.as_str());
            match result {
                Err(e) => {
                    assert(!keeps_reading(original[i as int]));
                    return Err(e);
                },
                Ok(report) => {
                    let mut line = lyrics[i].duplicate();
                    if report.reading.as_str().is_empty() {
                        line.reading_text = None;
                        line.reading_source = None;
                    } else {
                        line.reading_text = Some(report.reading);
                        line.reading_source = Some(ReadingSource::Generated);
                    }
                    let ghost before_set = unknown_union(engine.dictionary(), original.take(i as int));
                    let words = report.unknown_words;
                    let ghost new_words = strs(words@);
                    assert(unknown_union(engine.dictionary(), original.take(i + 1)) == before_set + new_words.to_set());
                    let mut j: usize = 0;
                    while j < words.len()
                        invariant
                            j <= words@.len(),
                            new_words == strs(words@),
                            sorted_texts(strs(unknown@)),
                            forall|w: Seq<char>|
                                #[trigger] strs(unknown@).contains(w) <==> (before_set.contains(w)
                                    || new_words.take(j as int).contains(w)),
                        decreases words.len() - j,
                    {
                        let ghost prev = strs(unknown@);
                        insert_text(&mut unknown, words[j].clone());
                        assert forall|w: Seq<char>|
                            strs(unknown@).contains(w) <==> (before_set.contains(w)
                                || new_words.take(j + 1).contains(w)) by {
                            let t0 = new_words.take(j as int);
                            let t1 = new_words.take(j + 1);
                            assert(t1 == t0.push(new_words[j as int]));
                            if t1.contains(w) && !t0.contains(w) {
                                let k = choose|k: int| 0 <= k < t1.len() && t1[k] == w;
                                if k < j {
                                    assert(t0[k] == w);
                                }
                            }
                            if t0.contains(w) {
                                let k = choose|k: int| 0 <= k < t0.len() && t0[k] == w;
                                assert(t1[k] == w);
                            }
                            if w == new_words[j as int] {
                                assert(t1[j as int] == w);
                            }
                        }
                        j = j + 1;
                    }
                    assert(new_words.take(words.len() as int) == new_words);
                    lyrics[i] = line;
                    generated = generated + 1;
                },
            }
        }
        i = i + 1;
    }
    assert(original.take(original.len() as int) == original);
    Ok(ReadingReport { generated, preserved, unknown_words: unknown })
}

} // verus!
