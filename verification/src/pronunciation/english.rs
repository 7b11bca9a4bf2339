//! US-English pronunciation, in context, for singing practice guides.
use vstd::prelude::*;

use super::katakana::{from_phonemes, is_vowel_symbol, katakana_of, symbols};
use super::phoneme::{base_of, str_equals, Phoneme};
use super::{PronunciationEngine, PronunciationResult};
use crate::forced_alignment::tokenizer::{ascii_lower, seq_eq, to_ascii_lowercase};
use crate::text::{
    chars_of, lines_of, runs_state, split_lines, split_whitespace, split_ws, string_from,
    strip_cr, strs,
};

verus! {

/// The pronunciation engine for English lyrics, backed by a pronouncing
/// dictionary in CMUdict's format: one entry per line, the lower-case word,
/// a space and its ARPAbet phonemes separated by spaces; alternative
/// pronunciations are marked `word(2)`, `word(3)` and so on. The rows are
/// split once, when the engine is made.
pub struct EnglishPronunciationEngine {
    rows: Vec<Vec<char>>,
    text: Ghost<Seq<char>>,
}

impl EnglishPronunciationEngine {
    /// The dictionary text the engine pronounces with.
    pub closed spec fn dictionary(&self) -> Seq<char> {
        self.text@
    }

    #[verifier::type_invariant]
    closed spec fn rows_split(&self) -> bool {
        row_views(self.rows@) == split_lines(self.text@)
    }

    /// An engine pronouncing with the dictionary `text`.
    pub fn new(text: &str) -> (engine: Self)
        ensures
            engine.dictionary() == text@,
    {
        let rows = lines_of(text);
        assert(row_views(rows@) == split_lines(text@));
        EnglishPronunciationEngine { rows, text: Ghost(text@) }
    }
}

/// One word of the input and whether it is sung linked to the next one.
struct WordToken {
    word: String,
    link_to_next: bool,
}

/// The views of a token sequence.
spec fn token_views(tokens: Seq<WordToken>) -> Seq<(Seq<char>, bool)> {
    tokens.map_values(|t: WordToken| (t.word@, t.link_to_next))
}

/// Curly single quotes become straight apostrophes; ASCII letters become
/// lower case.
pub open spec fn fold_char(c: char) -> char {
    if c == '\u{2019}' || c == '\u{2018}' {
        '\''
    } else {
        ascii_lower(c)
    }
}

/// The text with every character folded.
pub open spec fn folded(text: Seq<char>) -> Seq<char> {
    text.map_values(|c: char| fold_char(c))
}

fn fold_character(c: char) -> (r: char)
    ensures
        r == fold_char(c),
{
    if c == '\u{2019}' || c == '\u{2018}' {
        '\''
    } else {
        to_ascii_lowercase(c)
    }
}

/// An ASCII letter.
pub open spec fn is_letter(c: char) -> bool {
    ('a' <= c && c <= 'z') || ('A' <= c && c <= 'Z')
}

/// Punctuation that ends a phrase, so that the word before it is not
/// linked to the next one.
pub open spec fn breaks_link(c: char) -> bool {
    c == '.' || c == ',' || c == '!' || c == '?' || c == ';' || c == ':' || c == '(' || c == ')'
        || c == '[' || c == ']'
}

/// The words with their last one no longer linked to the next.
pub open spec fn unlinked(words: Seq<(Seq<char>, bool)>) -> Seq<(Seq<char>, bool)> {
    words.update(words.len() - 1, (words.last().0, false))
}

/// Reading folded text left to right: the finished words, each with whether
/// it links to the next, and the word being read. Letters, and apostrophes
/// inside a word, extend the word; any other character ends it (linked),
/// and phrase punctuation unlinks the word before it.
pub open spec fn scan_words(s: Seq<char>) -> (Seq<(Seq<char>, bool)>, Seq<char>)
    decreases s.len(),
{
    if s.len() == 0 {
        (Seq::empty(), Seq::empty())
    } else {
        let (words, current) = scan_words(s.drop_last());
        let c = s.last();
        if is_letter(c) || (c == '\'' && current.len() > 0) {
            (words, current.push(c))
        } else {
            let closed = if current.len() > 0 {
                words.push((current, true))
            } else {
                words
            };
            if breaks_link(c) && closed.len() > 0 {
                (unlinked(closed), Seq::empty())
            } else {
                (closed, Seq::empty())
            }
        }
    }
}

/// The words of a text, each with whether it links to the next one; the
/// last word never links.
pub open spec fn word_tokens(text: Seq<char>) -> Seq<(Seq<char>, bool)> {
    let (words, current) = scan_words(folded(text));
    if current.len() > 0 {
        words.push((current, false))
    } else if words.len() > 0 {
        unlinked(words)
    } else {
        words
    }
}

fn is_letter_char(c: char) -> (r: bool)
    ensures
        r == is_letter(c),
{
    ('a' <= c && c <= 'z') || ('A' <= c && c <= 'Z')
}

fn breaks_link_char(c: char) -> (r: bool)
    ensures
        r == breaks_link(c),
{
    c == '.' || c == ',' || c == '!' || c == '?' || c == ';' || c == ':' || c == '(' || c == ')'
        || c == '[' || c == ']'
}

fn unlink_last(words: &mut Vec<WordToken>)
    requires
        old(words).len() > 0,
    ensures
        token_views(final(words)@) == unlinked(token_views(old(words)@)),
{
    let last = words.len() - 1;
    let word = words[last].word.clone();
    words[last] = WordToken { word, link_to_next: false };
    assert(token_views(words@) == unlinked(token_views(old(words)@)));
}

/// Splits a lyric line into words and marks which words are linked to the
/// next one.
fn tokenize(input: &str) -> (tokens: Vec<WordToken>)
    ensures
        token_views(tokens@) == word_tokens(input@),
{
    let cs = chars_of(input);
    let ghost text = folded(input@);
    let mut words: Vec<WordToken> = Vec::new();
    let mut current: Vec<char> = Vec::new();
    let mut i: usize = 0;
    assert(text.take(0) == Seq::<char>::empty());
    assert(token_views(words@) == Seq::<(Seq<char>, bool)>::empty());
    while i < cs.len()
        invariant
            i <= cs.len(),
            cs@ == input@,
            text == folded(input@),
            text.len() == cs@.len(),
            scan_words(text.take(i as int)) == (token_views(words@), current@),
        decreases cs.len() - i,
    {
        let c = fold_character(cs[i]);
        let ghost words0 = words@;
        assert(text.take(i + 1).drop_last() == text.take(i as int));
        assert(text.take(i + 1).last() == c);
        if is_letter_char(c) || (c == '\'' && current.len() > 0) {
            current.push(c);
        } else {
            if current.len() > 0 {
                let word = string_from(&current);
                words.push(WordToken { word, link_to_next: true });
                current = Vec::new();
                assert(token_views(words@) == token_views(words0).push((word@, true)));
            }
            if breaks_link_char(c) && words.len() > 0 {
                unlink_last(&mut words);
            }
        }
        i = i + 1;
    }
    assert(text.take(cs.len() as int) == text);
    if current.len() > 0 {
        let ghost words0 = words@;
        let word = string_from(&current);
        words.push(WordToken { word, link_to_next: false });
        assert(token_views(words@) == token_views(words0).push((word@, false)));
    } else if words.len() > 0 {
        unlink_last(&mut words);
    }
    words
}

/// The first index at or after `i` where `s` holds `c`.
pub open spec fn index_from(s: Seq<char>, c: char, i: int) -> Option<int>
    decreases s.len() - i,
{
    if i < 0 || i >= s.len() {
        None
    } else if s[i] == c {
        Some(i)
    } else {
        index_from(s, c, i + 1)
    }
}

/// A dictionary line split at its first space into the entry and its
/// pronunciation.
pub open spec fn dictionary_entry(line: Seq<char>) -> Option<(Seq<char>, Seq<char>)> {
    match index_from(line, ' ', 0) {
        Some(p) => Some((line.take(p), line.skip(p + 1))),
        None => None,
    }
}

/// An alternative pronunciation, such as `word(2)`.
pub open spec fn is_variant(entry: Seq<char>) -> bool {
    entry.len() > 0 && entry.last() == ')'
}

/// The phonemes of the first dictionary row whose entry is `word` and is
/// not an alternative pronunciation.
pub open spec fn lookup_rows(rows: Seq<Seq<char>>, word: Seq<char>) -> Option<Seq<Seq<char>>>
    decreases rows.len(),
{
    if rows.len() == 0 {
        None
    } else {
        match dictionary_entry(strip_cr(rows[0])) {
            Some(entry) => if !is_variant(entry.0) && entry.0 == word {
                Some(split_ws(entry.1))
            } else {
                lookup_rows(rows.skip(1), word)
            },
            None => lookup_rows(rows.skip(1), word),
        }
    }
}

/// The dictionary pronunciation of `word`, if the dictionary has one.
pub open spec fn lookup_word(dictionary: Seq<char>, word: Seq<char>) -> Option<Seq<Seq<char>>> {
    lookup_rows(split_lines(dictionary), word)
}

/// The views of dictionary rows.
spec fn row_views(rows: Seq<Vec<char>>) -> Seq<Seq<char>> {
    rows.map_values(|r: Vec<char>| r@)
}

/// Whether `line[..p]` equals `word`.
fn prefix_equals(line: &Vec<char>, p: usize, word: &Vec<char>) -> (r: bool)
    requires
        p <= line.len(),
    ensures
        r == (line@.take(p as int) == word@),
{
    if p != word.len() {
        assert(line@.take(p as int).len() != word@.len());
        return false;
    }
    let mut k: usize = 0;
    while k < p
        invariant
            k <= p,
            p == word.len(),
            p <= line.len(),
            forall|m: int| 0 <= m < k ==> line@[m] == word@[m],
        decreases p - k,
    {
        if line[k] != word[k] {
            assert(line@.take(p as int)[k as int] != word@[k as int]);
            return false;
        }
        k = k + 1;
    }
    assert(line@.take(p as int) =~= word@);
    true
}

/// Looks `word` up in the rows of the dictionary.
fn lookup(rows: &Vec<Vec<char>>, word: &Vec<char>) -> (r: Option<Vec<String>>)
    ensures
        match r {
            Some(phones) => lookup_rows(row_views(rows@), word@) == Some(strs(phones@)),
            None => lookup_rows(row_views(rows@), word@) is None,
        },
{
    let ghost all = row_views(rows@);
    let mut k: usize = 0;
    assert(all.skip(0) == all);
    while k < rows.len()
        invariant
            k <= rows.len(),
            all == row_views(rows@),
            lookup_rows(all, word@) == lookup_rows(all.skip(k as int), word@),
        decreases rows.len() - k,
    {
        let line = &rows[k];
        let ghost rest = all.skip(k as int);
        assert(rest[0] == line@);
        assert(rest.skip(1) == all.skip(k + 1));
        let n = if line.len() > 0 && line[line.len() - 1] == '\r' {
            line.len() - 1
        } else {
            line.len()
        };
        let ghost t = strip_cr(line@);
        assert(t == line@.take(n as int));
        let mut p: usize = 0;
        while p < n && line[p] != ' '
            invariant
                p <= n <= line.len(),
                t == line@.take(n as int),
                index_from(t, ' ', 0) == index_from(t, ' ', p as int),
            decreases n - p,
        {
            p = p + 1;
        }
        if p < n {
            assert(index_from(t, ' ', 0) == Some(p as int));
            assert(t.take(p as int) == line@.take(p as int));
            assert(t.skip(p + 1) == line@.subrange(p + 1, n as int));
            let variant = p > 0 && line[p - 1] == ')';
            if !variant && prefix_equals(line, p, word) {
                return Some(split_whitespace(line, p + 1, n));
            }
        }
        k = k + 1;
    }
    None
}

/// How a letter is spelled out when a word is not in the dictionary.
pub open spec fn spelled(c: char) -> Seq<char> {
    if c == 'a' {
        "EY1"@
    } else if c == 'b' {
        "B IY1"@
    } else if c == 'c' {
        "S IY1"@
    } else if c == 'd' {
        "D IY1"@
    } else if c == 'e' {
        "IY1"@
    } else if c == 'f' {
        "EH1 F"@
    } else if c == 'g' {
        "JH IY1"@
    } else if c == 'h' {
        "EY1 CH"@
    } else if c == 'i' {
        "AY1"@
    } else if c == 'j' {
        "JH EY1"@
    } else if c == 'k' {
        "K EY1"@
    } else if c == 'l' {
        "EH1 L"@
    } else if c == 'm' {
        "EH1 M"@
    } else if c == 'n' {
        "EH1 N"@
    } else if c == 'o' {
        "OW1"@
    } else if c == 'p' {
        "P IY1"@
    } else if c == 'q' {
        "K Y UW1"@
    } else if c == 'r' {
        "AA1 R"@
    } else if c == 's' {
        "EH1 S"@
    } else if c == 't' {
        "T IY1"@
    } else if c == 'u' {
        "Y UW1"@
    } else if c == 'v' {
        "V IY1"@
    } else if c == 'w' {
        "D AH1 B AH0 L Y UW0"@
    } else if c == 'x' {
        "EH1 K S"@
    } else if c == 'y' {
        "W AY1"@
    } else if c == 'z' {
        "Z IY1"@
    } else {
        ""@
    }
}

fn spelled_text(c: char) -> (r: &'static str)
    ensures
        r@ == spelled(c),
{
    if c == 'a' {
        "EY1"
    } else if c == 'b' {
        "B IY1"
    } else if c == 'c' {
        "S IY1"
    } else if c == 'd' {
        "D IY1"
    } else if c == 'e' {
        "IY1"
    } else if c == 'f' {
        "EH1 F"
    } else if c == 'g' {
        "JH IY1"
    } else if c == 'h' {
        "EY1 CH"
    } else if c == 'i' {
        "AY1"
    } else if c == 'j' {
        "JH EY1"
    } else if c == 'k' {
        "K EY1"
    } else if c == 'l' {
        "EH1 L"
    } else if c == 'm' {
        "EH1 M"
    } else if c == 'n' {
        "EH1 N"
    } else if c == 'o' {
        "OW1"
    } else if c == 'p' {
        "P IY1"
    } else if c == 'q' {
        "K Y UW1"
    } else if c == 'r' {
        "AA1 R"
    } else if c == 's' {
        "EH1 S"
    } else if c == 't' {
        "T IY1"
    } else if c == 'u' {
        "Y UW1"
    } else if c == 'v' {
        "V IY1"
    } else if c == 'w' {
        "D AH1 B AH0 L Y UW0"
    } else if c == 'x' {
        "EH1 K S"
    } else if c == 'y' {
        "W AY1"
    } else if c == 'z' {
        "Z IY1"
    } else {
        ""
    }
}

/// The pronunciation of a word that the dictionary lacks: its lower-case
/// letters spelled out one by one; other characters are silent.
pub open spec fn fallback_phones(word: Seq<char>) -> Seq<Seq<char>>
    decreases word.len(),
{
    if word.len() == 0 {
        Seq::empty()
    } else {
        fallback_phones(word.drop_last()) + split_ws(spelled(word.last()))
    }
}

/// Appends `more` to `out`.
fn append_strings(out: &mut Vec<String>, more: Vec<String>)
    ensures
        strs(final(out)@) == strs(old(out)@) + strs(more@),
{
    let mut more = more;
    let ghost m = more@;
    out.append(&mut more);
    assert(strs(out@) == strs(old(out)@) + strs(m));
}

/// Spells a word out letter by letter.
fn fallback_pronunciation(word: &str) -> (phones: Vec<String>)
    ensures
        strs(phones@) == fallback_phones(word@),
{
    let cs = chars_of(word);
    let mut phones: Vec<String> = Vec::new();
    let mut i: usize = 0;
    assert(cs@.take(0) == Seq::<char>::empty());
    assert(strs(phones@) == Seq::<Seq<char>>::empty());
    while i < cs.len()
        invariant
            i <= cs.len(),
            cs@ == word@,
            strs(phones@) == fallback_phones(cs@.take(i as int)),
        decreases cs.len() - i,
    {
        let letters = chars_of(spelled_text(cs[i]));
        let more = split_whitespace(&letters, 0, letters.len());
        assert(letters@.subrange(0, letters@.len() as int) == letters@);
        append_strings(&mut phones, more);
        assert(cs@.take(i + 1).drop_last() == cs@.take(i as int));
        i = i + 1;
    }
    assert(cs@.take(cs.len() as int) == cs@);
    phones
}

/// Splits a string at whitespace.
fn split_text(t: &str) -> (words: Vec<String>)
    ensures
        strs(words@) == split_ws(t@),
{
    let cs = chars_of(t);
    assert(cs@.subrange(0, cs@.len() as int) == cs@);
    split_whitespace(&cs, 0, cs.len())
}

/// Whether an ARPAbet symbol is a vowel.
fn is_vowel(phone: &str) -> (r: bool)
    ensures
        r == is_vowel_symbol(phone@),
{
    Phoneme::new(phone).is_vowel()
}

/// A word of the line with its phonemes and whether it links to the next.
struct WordPronunciation {
    word: String,
    phones: Vec<String>,
    link_to_next: bool,
}

/// The words of a pronunciation sequence.
spec fn texts(ws: Seq<WordPronunciation>) -> Seq<Seq<char>> {
    ws.map_values(|w: WordPronunciation| w.word@)
}

/// The phonemes of each word of a pronunciation sequence.
spec fn phone_lists(ws: Seq<WordPronunciation>) -> Seq<Seq<Seq<char>>> {
    ws.map_values(|w: WordPronunciation| strs(w.phones@))
}

/// The links of a pronunciation sequence.
spec fn links(ws: Seq<WordPronunciation>) -> Seq<bool> {
    ws.map_values(|w: WordPronunciation| w.link_to_next)
}

/// Whether a pronunciation starts with a vowel.
pub open spec fn starts_with_vowel(phones: Seq<Seq<char>>) -> bool {
    phones.len() > 0 && is_vowel_symbol(phones[0])
}

/// The weak (unstressed) form of the function word at `i`, where it has
/// one: `a`, `an`, `of`; `and` and `for` unless they end the line; `the`
/// (as "thee" before a vowel); `to` before a consonant when it does not
/// start the line.
pub open spec fn weak_form(words: Seq<Seq<char>>, phones: Seq<Seq<Seq<char>>>, i: int) -> Option<Seq<char>> {
    let w = words[i];
    let has_next = i + 1 < words.len();
    let next_vowel = has_next && starts_with_vowel(phones[i + 1]);
    if w == "a"@ {
        Some("AH0"@)
    } else if w == "an"@ {
        Some("AH0 N"@)
    } else if w == "and"@ && has_next {
        Some("AH0 N"@)
    } else if w == "of"@ {
        Some("AH0 V"@)
    } else if w == "for"@ && has_next {
        Some("F ER0"@)
    } else if w == "the"@ && next_vowel {
        Some("DH IY0"@)
    } else if w == "the"@ {
        Some("DH AH0"@)
    } else if w == "to"@ && !next_vowel && i > 0 {
        Some("T AH0"@)
    } else {
        None
    }
}

/// Whether the word at `i` is `lives` after a possessive (the noun, not the
/// verb).
pub open spec fn possessed_lives(words: Seq<Seq<char>>, i: int) -> bool {
    words[i] == "lives"@ && i > 0 && (words[i - 1] == "our"@ || words[i - 1] == "their"@ || words[i
        - 1] == "your"@)
}

/// The phonemes of the word at `i` after weak forms: the noun `lives`,
/// then a weak form, replace the dictionary pronunciation.
pub open spec fn weak_phones(words: Seq<Seq<char>>, phones: Seq<Seq<Seq<char>>>, i: int) -> Seq<
    Seq<char>,
> {
    if possessed_lives(words, i) {
        split_ws("L AY1 V Z"@)
    } else {
        match weak_form(words, phones, i) {
            Some(t) => split_ws(t),
            None => phones[i],
        }
    }
}

/// Every word's phonemes after weak forms. Each word is decided on the
/// dictionary pronunciations of its neighbours.
pub open spec fn with_weak_forms(words: Seq<Seq<char>>, phones: Seq<Seq<Seq<char>>>) -> Seq<
    Seq<Seq<char>>,
> {
    Seq::new(phones.len(), |i: int| weak_phones(words, phones, i))
}

/// Replaces the phonemes of word `i`.
fn set_phones(words: &mut Vec<WordPronunciation>, i: usize, phones: Vec<String>)
    requires
        i < old(words).len(),
    ensures
        final(words)@.len() == old(words)@.len(),
        texts(final(words)@) == texts(old(words)@),
        links(final(words)@) == links(old(words)@),
        phone_lists(final(words)@) == phone_lists(old(words)@).update(i as int, strs(phones@)),
{
    let word = words[i].word.clone();
    let link_to_next = words[i].link_to_next;
    words[i] = WordPronunciation { word, phones, link_to_next };
    assert(texts(words@) == texts(old(words)@));
    assert(links(words@) == links(old(words)@));
    assert(phone_lists(words@) == phone_lists(old(words)@).update(i as int, strs(phones@)));
}

/// Uses the weak forms of function words, as they are sung.
fn apply_weak_forms(words: &mut Vec<WordPronunciation>)
    ensures
        final(words)@.len() == old(words)@.len(),
        texts(final(words)@) == texts(old(words)@),
        links(final(words)@) == links(old(words)@),
        phone_lists(final(words)@) == with_weak_forms(
            texts(old(words)@),
            phone_lists(old(words)@),
        ),
{
    let ghost ws = texts(old(words)@);
    let ghost ps = phone_lists(old(words)@);
    let mut index: usize = 0;
    while index < words.len()
        invariant
            index <= words.len(),
            words@.len() == ps.len(),
            ws.len() == ps.len(),
            texts(words@) == ws,
            links(words@) == links(old(words)@),
            forall|k: int| 0 <= k < index ==> #[trigger] phone_lists(words@)[k] == weak_phones(ws, ps, k),
            forall|k: int| index <= k < ps.len() ==> #[trigger] phone_lists(words@)[k] == ps[k],
        decreases words.len() - index,
    {
        let has_next = index + 1 < words.len();
        let next_vowel = has_next && words[index + 1].phones.len() > 0 && is_vowel(
            words[index + 1].phones[0].as_str(),
        );
        proof {
            if has_next {
                assert(phone_lists(words@)[index + 1] == ps[index + 1]);
            }
        }
        let w = words[index].word.as_str();
        let replacement: Option<&str> = if str_equals(w, "a") {
            Some("AH0")
        } else if str_equals(w, "an") {
            Some("AH0 N")
        } else if str_equals(w, "and") && has_next {
            Some("AH0 N")
        } else if str_equals(w, "of") {
            Some("AH0 V")
        } else if str_equals(w, "for") && has_next {
            Some("F ER0")
        } else if str_equals(w, "the") && next_vowel {
            Some("DH IY0")
        } else if str_equals(w, "the") {
            Some("DH AH0")
        } else if str_equals(w, "to") && !next_vowel && index > 0 {
            Some("T AH0")
        } else {
            None
        };
        let lives = str_equals(w, "lives") && index > 0 && (str_equals(
            words[index - 1].word.as_str(),
            "our",
        ) || str_equals(words[index - 1].word.as_str(), "their") || str_equals(
            words[index - 1].word.as_str(),
            "your",
        ));
        let ghost before = words@;
        if lives {
            set_phones(words, index, split_text("L AY1 V Z"));
        } else if let Some(t) = replacement {
            set_phones(words, index, split_text(t));
        }
        assert(phone_lists(words@)[index as int] == weak_phones(ws, ps, index as int));
        index = index + 1;
    }
    assert(phone_lists(words@) == with_weak_forms(ws, ps));
}

/// The index `n - 2`, saturating at zero.
pub open spec fn second_last(n: int) -> int {
    if n >= 2 {
        n - 2
    } else {
        0
    }
}

/// Connected speech between word `i` and the next, if they are linked: a
/// final `T` or `D` before `Y` coalesces into `CH` or `JH` ("did you"), and
/// a final `T` or `D` between vowels becomes a flap `DX` ("get it"). The
/// next word's phonemes then move into word `i`.
pub open spec fn connect_at(phones: Seq<Seq<Seq<char>>>, links: Seq<bool>, i: int) -> Seq<
    Seq<Seq<char>>,
> {
    let previous = phones[i];
    let next = phones[i + 1];
    if !links[i] || previous.len() == 0 || next.len() == 0 {
        phones
    } else {
        let last = previous.last();
        let first = next[0];
        let stop = last == "T"@ || last == "D"@;
        if stop && first == "Y"@ {
            let joined = if last == "T"@ {
                "CH"@
            } else {
                "JH"@
            };
            phones.update(i, previous.drop_last() + next.update(0, joined)).update(
                i + 1,
                Seq::empty(),
            )
        } else if stop && is_vowel_symbol(first) && is_vowel_symbol(
            previous[second_last(previous.len() as int)],
        ) {
            phones.update(i, previous.drop_last() + seq!["DX"@] + next).update(
                i + 1,
                Seq::empty(),
            )
        } else {
            phones
        }
    }
}

proof fn lemma_y_is_no_vowel()
    ensures
        !is_vowel_symbol("Y"@),
{
    reveal_strlit("Y");
    reveal_strlit("AA");
    reveal_strlit("AE");
    reveal_strlit("AH");
    reveal_strlit("AO");
    reveal_strlit("AW");
    reveal_strlit("AY");
    reveal_strlit("EH");
    reveal_strlit("ER");
    reveal_strlit("EY");
    reveal_strlit("IH");
    reveal_strlit("IY");
    reveal_strlit("OW");
    reveal_strlit("OY");
    reveal_strlit("UH");
    reveal_strlit("UW");
    assert(base_of("Y"@) == "Y"@);
    assert("Y"@.len() == 1);
}

/// The flap of connected speech: when word `i` is sung linked to the next
/// one, ends in `T` or `D` after a vowel, and the next word starts with a
/// vowel, that `T` or `D` becomes the flap `DX` and the next word's
/// phonemes join word `i` ("get it", "did it"); the next word is left
/// empty and no other word changes.
pub proof fn linked_t_or_d_between_vowels_becomes_a_flap(
    phones: Seq<Seq<Seq<char>>>,
    links: Seq<bool>,
    i: int,
)
    requires
        0 <= i < phones.len() - 1,
        i < links.len(),
        links[i],
        phones[i].len() >= 2,
        phones[i].last() == "T"@ || phones[i].last() == "D"@,
        is_vowel_symbol(phones[i][phones[i].len() - 2]),
        phones[i + 1].len() > 0,
        is_vowel_symbol(phones[i + 1][0]),
    ensures
        connect_at(phones, links, i).len() == phones.len(),
        connect_at(phones, links, i)[i] == phones[i].drop_last() + seq!["DX"@] + phones[i + 1],
        connect_at(phones, links, i)[i + 1] == Seq::<Seq<char>>::empty(),
        forall|k: int| 0 <= k < phones.len() && k != i && k != i + 1 ==> #[trigger] connect_at(phones, links, i)[k] == phones[k],
{
    lemma_y_is_no_vowel();
    assert(phones[i + 1][0] != "Y"@);
}

/// Yod coalescence of connected speech: when word `i` is sung linked to
/// the next one, ends in `T` or `D`, and the next word starts with `Y`,
/// the two sounds merge into `CH` (after `T`) or `JH` (after `D`) and the
/// next word's phonemes join word `i` ("don't you", "did you"); the next
/// word is left empty and no other word changes.
pub proof fn linked_t_or_d_before_y_coalesces(
    phones: Seq<Seq<Seq<char>>>,
    links: Seq<bool>,
    i: int,
)
    requires
        0 <= i < phones.len() - 1,
        i < links.len(),
        links[i],
        phones[i].len() >= 1,
        phones[i].last() == "T"@ || phones[i].last() == "D"@,
        phones[i + 1].len() > 0,
        phones[i + 1][0] == "Y"@,
    ensures
        connect_at(phones, links, i).len() == phones.len(),
        connect_at(phones, links, i)[i] == phones[i].drop_last() + phones[i + 1].update(
            0,
            if phones[i].last() == "T"@ {
                "CH"@
            } else {
                "JH"@
            },
        ),
        connect_at(phones, links, i)[i + 1] == Seq::<Seq<char>>::empty(),
        forall|k: int| 0 <= k < phones.len() && k != i && k != i + 1 ==> #[trigger] connect_at(phones, links, i)[k] == phones[k],
{
}

/// Words that are not linked to the next one are never joined: connected
/// speech leaves the phrase unchanged at such a pair.
pub proof fn unlinked_words_stay_apart(phones: Seq<Seq<Seq<char>>>, links: Seq<bool>, i: int)
    requires
        0 <= i < phones.len() - 1,
        i < links.len(),
        !links[i],
    ensures
        connect_at(phones, links, i) == phones,
{
}

/// Connected speech applied at the word pairs `0..k`, in order.
pub open spec fn connect_upto(phones: Seq<Seq<Seq<char>>>, links: Seq<bool>, k: int) -> Seq<
    Seq<Seq<char>>,
>
    decreases k,
{
    if k <= 0 {
        phones
    } else {
        connect_at(connect_upto(phones, links, k - 1), links, k - 1)
    }
}

/// Connected speech applied at every pair of neighbouring words.
pub open spec fn connected(phones: Seq<Seq<Seq<char>>>, links: Seq<bool>) -> Seq<Seq<Seq<char>>> {
    connect_upto(phones, links, phones.len() - 1)
}

/// Appends `src[from..to]` to `out`.
fn copy_range(out: &mut Vec<String>, src: &Vec<String>, from: usize, to: usize)
    requires
        from <= to <= src.len(),
    ensures
        strs(final(out)@) == strs(old(out)@) + strs(src@).subrange(from as int, to as int),
{
    let mut k = from;
    while k < to
        invariant
            from <= k <= to <= src.len(),
            strs(out@) == strs(old(out)@) + strs(src@).subrange(from as int, k as int),
        decreases to - k,
    {
        let ghost before = out@;
        out.push(src[k].clone());
        assert(strs(out@) == strs(before).push(src@[k as int]@));
        assert(strs(src@).subrange(from as int, k + 1) == strs(src@).subrange(from as int, k as int).push(src@[k as int]@));
        k = k + 1;
    }
    assert(strs(old(out)@) + strs(src@).subrange(from as int, from as int) == strs(old(out)@));
}

/// Applies connected speech between linked words.
fn apply_connected_speech(words: &mut Vec<WordPronunciation>)
    ensures
        final(words)@.len() == old(words)@.len(),
        texts(final(words)@) == texts(old(words)@),
        links(final(words)@) == links(old(words)@),
        phone_lists(final(words)@) == connected(phone_lists(old(words)@), links(old(words)@)),
{
    let ghost ps = phone_lists(old(words)@);
    let ghost ls = links(old(words)@);
    if words.len() == 0 {
        return;
    }
    let mut index: usize = 0;
    while index < words.len() - 1
        invariant
            index <= words.len() - 1,
            words@.len() == ps.len(),
            ls.len() == ps.len(),
            texts(words@) == texts(old(words)@),
            links(words@) == ls,
            phone_lists(words@) == connect_upto(ps, ls, index as int),
        decreases words.len() - index,
    {
        let ghost current = phone_lists(words@);
        assert(current[index as int] == strs(words@[index as int].phones@));
        assert(current[index + 1] == strs(words@[index + 1].phones@));
        if words[index].link_to_next && words[index].phones.len() > 0 && words[index
            + 1].phones.len() > 0 {
            let n = words[index].phones.len();
            let last = words[index].phones[n - 1].as_str();
            let first = words[index + 1].phones[0].as_str();
            let stop = str_equals(last, "T") || str_equals(last, "D");
            let second = if n >= 2 {
                n - 2
            } else {
                0
            };
            if stop && str_equals(first, "Y") {
                let joined = if str_equals(last, "T") {
                    "CH"
                } else {
                    "JH"
                };
                let mut merged: Vec<String> = Vec::new();
                copy_range(&mut merged, &words[index].phones, 0, n - 1);
                let ghost m0 = strs(merged@);
                merged.push(joined.to_owned());
                let next_len = words[index + 1].phones.len();
                copy_range(&mut merged, &words[index + 1].phones, 1, next_len);
                proof {
                    let previous = current[index as int];
                    let next = current[index + 1];
                    assert(m0 == previous.drop_last());
                    assert(strs(merged@) == previous.drop_last() + next.update(0, joined@));
                }
                set_phones(words, index, merged);
                let empty: Vec<String> = Vec::new();
                assert(strs(empty@) == Seq::<Seq<char>>::empty());
                set_phones(words, index + 1, empty);
            } else if stop && is_vowel(first) && is_vowel(words[index].phones[second].as_str()) {
                let mut merged: Vec<String> = Vec::new();
                copy_range(&mut merged, &words[index].phones, 0, n - 1);
                merged.push("DX".to_owned());
                let next_len = words[index + 1].phones.len();
                copy_range(&mut merged, &words[index + 1].phones, 0, next_len);
                proof {
                    let previous = current[index as int];
                    let next = current[index + 1];
                    assert(next.subrange(0, next.len() as int) == next);
                    assert(strs(merged@) == previous.drop_last() + seq!["DX"@] + next);
                }
                set_phones(words, index, merged);
                let empty: Vec<String> = Vec::new();
                assert(strs(empty@) == Seq::<Seq<char>>::empty());
                set_phones(words, index + 1, empty);
            }
        }
        index = index + 1;
    }
}

/// A word's pronunciation: from the dictionary, else spelled out.
pub open spec fn pronounce_word(dictionary: Seq<char>, word: Seq<char>) -> Seq<Seq<char>> {
    pronounce_in(split_lines(dictionary), word)
}

/// A word's pronunciation from dictionary rows, else spelled out.
pub open spec fn pronounce_in(rows: Seq<Seq<char>>, word: Seq<char>) -> Seq<Seq<char>> {
    match lookup_rows(rows, word) {
        Some(phones) => phones,
        None => fallback_phones(word),
    }
}

/// The words that the dictionary lacks, in order, repeats included.
pub open spec fn unknown_words(dictionary: Seq<char>, words: Seq<Seq<char>>) -> Seq<Seq<char>> {
    unknown_rows(split_lines(dictionary), words)
}

/// The words' phonemes in one sequence, a `|` marker between neighbours.
pub open spec fn with_boundaries(phones: Seq<Seq<Seq<char>>>) -> Seq<Seq<char>>
    decreases phones.len(),
{
    if phones.len() == 0 {
        Seq::empty()
    } else if phones.len() == 1 {
        phones[0]
    } else {
        with_boundaries(phones.drop_last()) + seq!["|"@] + phones.last()
    }
}

/// The pronunciation guide of an English line, as (reading, phonemes,
/// unknown words): its words are pronounced from the dictionary (spelled out
/// when missing), weak forms and then connected speech are applied, and the
/// phonemes are written in katakana. A line without words has an empty
/// guide. The error is that of the first word without a katakana form.
pub open spec fn english_guide(dictionary: Seq<char>, text: Seq<char>) -> Result<
    (Seq<char>, Seq<Seq<char>>, Seq<Seq<char>>),
    Seq<char>,
> {
    let tokens = word_tokens(text);
    if tokens.len() == 0 {
        Ok((Seq::empty(), Seq::empty(), Seq::empty()))
    } else {
        let words = tokens.map_values(|t: (Seq<char>, bool)| t.0);
        let links = tokens.map_values(|t: (Seq<char>, bool)| t.1);
        let phones = words.map_values(|w: Seq<char>| pronounce_word(dictionary, w));
        let phonemes = with_boundaries(connected(with_weak_forms(words, phones), links));
        match katakana_of(phonemes) {
            Ok(reading) => Ok((reading, phonemes, unknown_words(dictionary, words))),
            Err(e) => Err(e),
        }
    }
}

/// Whether a generated guide is the one described.
pub open spec fn guide_is(
    r: Result<PronunciationResult, String>,
    guide: Result<(Seq<char>, Seq<Seq<char>>, Seq<Seq<char>>), Seq<char>>,
) -> bool {
    match r {
        Ok(result) => result.phonemes is Some && guide == Ok::<
            (Seq<char>, Seq<Seq<char>>, Seq<Seq<char>>),
            Seq<char>,
        >((result.reading@, symbols(result.phonemes->0@), strs(result.unknown_words@))),
        Err(e) => guide == Err::<(Seq<char>, Seq<Seq<char>>, Seq<Seq<char>>), Seq<char>>(e@),
    }
}

/// Looks every word up, spelling out the missing ones; returns the words
/// with their pronunciations and the missing words.
fn pronounce_all(rows: &Vec<Vec<char>>, tokens: Vec<WordToken>) -> (r: (
    Vec<WordPronunciation>,
    Vec<String>,
))
    ensures
        texts(r.0@) == token_views(tokens@).map_values(|t: (Seq<char>, bool)| t.0),
        links(r.0@) == token_views(tokens@).map_values(|t: (Seq<char>, bool)| t.1),
        phone_lists(r.0@) == texts(r.0@).map_values(|w: Seq<char>| pronounce_in(row_views(rows@), w)),
        strs(r.1@) == unknown_rows(row_views(rows@), texts(r.0@)),
{
    let ghost tv = token_views(tokens@);
    let ghost all_rows = row_views(rows@);
    let mut out: Vec<WordPronunciation> = Vec::new();
    let mut unknown: Vec<String> = Vec::new();
    let mut i: usize = 0;
    while i < tokens.len()
        invariant
            i <= tokens.len(),
            tv == token_views(tokens@),
            all_rows == row_views(rows@),
            out@.len() == i,
            forall|k: int| 0 <= k < i ==> (#[trigger] out@[k]).word@ == tv[k].0 && out@[k].link_to_next
                == tv[k].1 && strs(out@[k].phones@) == match lookup_rows(all_rows, tv[k].0) {
                Some(phones) => phones,
                None => fallback_phones(tv[k].0),
            },
            strs(unknown@) == unknown_rows(all_rows, texts(out@)),
        decreases tokens.len() - i,
    {
        let word = tokens[i].word.clone();
        let letters = chars_of(word.as_str());
        let ghost unknown0 = strs(unknown@);
        let ghost out0 = out@;
        let found = lookup(rows, &letters);
        let phones = match found {
            Some(p) => p,
            None => {
                unknown.push(word.clone());
                fallback_pronunciation(word.as_str())
            },
        };
        out.push(WordPronunciation { word, phones, link_to_next: tokens[i].link_to_next });
        proof {
            assert(texts(out@).drop_last() == texts(out0));
            assert(texts(out@).last() == tv[i as int].0);
        }
        i = i + 1;
    }
    assert(texts(out@) == tv.map_values(|t: (Seq<char>, bool)| t.0));
    assert(links(out@) == tv.map_values(|t: (Seq<char>, bool)| t.1));
    assert(phone_lists(out@) == texts(out@).map_values(|w: Seq<char>| pronounce_in(all_rows, w)));
    (out, unknown)
}

/// The words whose lookup in the rows fails, in order.
pub open spec fn unknown_rows(rows: Seq<Seq<char>>, words: Seq<Seq<char>>) -> Seq<Seq<char>>
    decreases words.len(),
{
    if words.len() == 0 {
        Seq::empty()
    } else {
        let before = unknown_rows(rows, words.drop_last());
        if lookup_rows(rows, words.last()) is None {
            before.push(words.last())
        } else {
            before
        }
    }
}

/// The phonemes of all words, a `|` marker between neighbours.
fn phoneme_sequence(words: &Vec<WordPronunciation>) -> (r: Vec<Phoneme>)
    ensures
        symbols(r@) == with_boundaries(phone_lists(words@)),
{
    let ghost ps = phone_lists(words@);
    let mut out: Vec<Phoneme> = Vec::new();
    let mut index: usize = 0;
    assert(ps.take(0) == Seq::<Seq<Seq<char>>>::empty());
    assert(symbols(out@) == Seq::<Seq<char>>::empty());
    while index < words.len()
        invariant
            index <= words.len(),
            ps == phone_lists(words@),
            symbols(out@) == with_boundaries(ps.take(index as int)),
        decreases words.len() - index,
    {
        let ghost before = symbols(out@);
        if index > 0 {
            out.push(Phoneme::new("|"));
            assert(symbols(out@) == before.push("|"@));
        }
        let ghost middle = symbols(out@);
        let phones = &words[index].phones;
        let mut k: usize = 0;
        assert(strs(phones@).take(0) == Seq::<Seq<char>>::empty());
        assert(middle + Seq::<Seq<char>>::empty() == middle);
        while k < phones.len()
            invariant
                k <= phones.len(),
                symbols(out@) == middle + strs(phones@).take(k as int),
            decreases phones.len() - k,
        {
            let ghost o = out@;
            out.push(Phoneme::new(phones[k].as_str()));
            assert(symbols(out@) == symbols(o).push(phones@[k as int]@));
            assert(strs(phones@).take(k + 1) == strs(phones@).take(k as int).push(phones@[k as int]@));
            k = k + 1;
        }
        assert(strs(phones@).take(phones.len() as int) == ps[index as int]);
        assert(ps.take(index + 1).drop_last() == ps.take(index as int));
        if index > 0 {
            assert(symbols(out@) == before + seq!["|"@] + ps[index as int]);
        } else {
            assert(before == Seq::<Seq<char>>::empty());
            assert(symbols(out@) == ps[index as int]);
        }
        index = index + 1;
    }
    assert(ps.take(words.len() as int) == ps);
    out
}

impl PronunciationEngine for EnglishPronunciationEngine {
    /// Pronounces an English line with the engine's dictionary, as
    /// [`english_guide`] describes.
    fn generate(&self, original: &str) -> (r: Result<PronunciationResult, String>)
        ensures
            guide_is(r, english_guide(self.dictionary(), original@)),
    {
        proof {
            use_type_invariant(self);
        }
        let tokens = tokenize(original);
        if tokens.len() == 0 {
            let empty: Vec<Phoneme> = Vec::new();
            let none: Vec<String> = Vec::new();
            assert(symbols(empty@) == Seq::<Seq<char>>::empty());
            assert(strs(none@) == Seq::<Seq<char>>::empty());
            return Ok(
                PronunciationResult { reading: String::new(), phonemes: Some(empty), unknown_words: none },
            );
        }
        let rows = &self.rows;
        let ghost dictionary = split_lines(self.dictionary());
        assert(row_views(rows@) == dictionary);
        let ghost tv = token_views(tokens@);
        let (mut words, unknown) = pronounce_all(rows, tokens);
        let ghost ws = texts(words@);
        let ghost ls = links(words@);
        let ghost ps = phone_lists(words@);
        proof {
            let guide_words = tv.map_values(|t: (Seq<char>, bool)| t.0);
            assert(ws == guide_words);
            assert(ls == tv.map_values(|t: (Seq<char>, bool)| t.1));
            assert(ps == guide_words.map_values(|w: Seq<char>| pronounce_word(self.dictionary(), w)));
        }
        apply_weak_forms(&mut words);
        apply_connected_speech(&mut words);
        let phonemes = phoneme_sequence(&words);
        match from_phonemes(&phonemes) {
            Ok(reading) => Ok(
                PronunciationResult { reading, phonemes: Some(phonemes), unknown_words: unknown },
            ),
            Err(e) => Err(e),
        }
    }
}

} // verus!
