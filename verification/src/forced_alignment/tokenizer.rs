//! Turning lyric text into the token id sequence (transcript) of an
//! acoustic model's vocabulary. English uses the vocabulary baked into the
//! model; Japanese uses a vocabulary read from the model's tokenizer file.
use unicode_normalization::UnicodeNormalization;
use vstd::prelude::*;

use crate::domain::lyrics::LyricLine;
use crate::text::{chars_of, extend_str, is_whitespace, is_ws, push_char, string_from};

verus! {

/// The CTC blank token id (0 for both the English and the Japanese model).
pub const BLANK_ID: usize = 0;
/// The word delimiter (`|`) token id of the English model's vocabulary.
pub const WORD_DELIMITER_ID: usize = 4;

/// The language used for forced alignment (the GUI's `en`/`jp` choice).
#[derive(Debug, Clone, Copy, PartialEq, Eq, Structural)]
pub enum AlignmentLanguage {
    English,
    Japanese,
}

impl AlignmentLanguage {
    /// The short code of the language.
    pub fn code(self) -> (c: &'static str)
        ensures
            c@ == (match self {
                AlignmentLanguage::English => "en"@,
                AlignmentLanguage::Japanese => "jp"@,
            }),
    {
        match self {
            AlignmentLanguage::English => "en",
            AlignmentLanguage::Japanese => "jp",
        }
    }
}

/// A tokenised lyric text: `line_indices[i]` is the lyric line that
/// `token_ids[i]` belongs to, which lets per-token alignments be gathered
/// per line.
#[derive(Debug, Clone, PartialEq, Eq)]
pub struct Transcript {
    pub token_ids: Vec<usize>,
    pub line_indices: Vec<usize>,
    /// The word delimiter token id, if the vocabulary has one. Tokens with
    /// this id separate words and are not lyric content.
    pub delimiter_id: Option<usize>,
}

/// A character-to-token-id table for Japanese alignment, read from an
/// external tokenizer file.
#[derive(Debug, Clone)]
pub struct Vocabulary {
    tokens: Vec<(char, usize)>,
    pub blank_id: usize,
    delimiter_id: Option<usize>,
}

/// The table described by a list of pairs, later pairs overriding earlier
/// ones for the same character.
pub open spec fn pairs_map(pairs: Seq<(char, usize)>) -> Map<char, usize>
    decreases pairs.len(),
{
    if pairs.len() == 0 {
        Map::empty()
    } else {
        pairs_map(pairs.drop_last()).insert(pairs.last().0, pairs.last().1)
    }
}

impl View for Vocabulary {
    type V = (Map<char, usize>, usize, Option<usize>);

    /// The character table, the blank id and the delimiter id.
    closed spec fn view(&self) -> Self::V {
        (pairs_map(self.tokens@), self.blank_id, self.delimiter_id)
    }
}

/// The value of the first entry named `key`, if any.
pub open spec fn entry_value(entries: Seq<(Seq<char>, Option<u64>)>, key: Seq<char>) -> Option<
    Option<u64>,
>
    decreases entries.len(),
{
    if entries.len() == 0 {
        None
    } else if entries[0].0 == key {
        Some(entries[0].1)
    } else {
        entry_value(entries.drop_first(), key)
    }
}

/// The unsigned integer stored under `key`, if the entry exists and holds one.
pub open spec fn entry_id(entries: Seq<(Seq<char>, Option<u64>)>, key: Seq<char>) -> Option<u64> {
    match entry_value(entries, key) {
        Some(Some(v)) => Some(v),
        _ => None,
    }
}

/// The single-character entries with integer ids, in order.
pub open spec fn char_pairs(entries: Seq<(Seq<char>, Option<u64>)>) -> Seq<(char, usize)>
    decreases entries.len(),
{
    if entries.len() == 0 {
        Seq::empty()
    } else {
        let earlier = char_pairs(entries.drop_last());
        let e = entries.last();
        if e.0.len() == 1 && e.1.is_some() {
            earlier.push((e.0[0], e.1->0 as usize))
        } else {
            earlier
        }
    }
}

/// The blank id: the id of the first of `<pad>`, `[PAD]`, `<blank>` that is
/// present with an integer id, else [`BLANK_ID`].
pub open spec fn blank_of(entries: Seq<(Seq<char>, Option<u64>)>) -> usize {
    if entry_id(entries, "<pad>"@).is_some() {
        entry_id(entries, "<pad>"@)->0 as usize
    } else if entry_id(entries, "[PAD]"@).is_some() {
        entry_id(entries, "[PAD]"@)->0 as usize
    } else if entry_id(entries, "<blank>"@).is_some() {
        entry_id(entries, "<blank>"@)->0 as usize
    } else {
        BLANK_ID
    }
}

/// The message when a vocabulary file holds no character tokens.
pub open spec fn no_tokens_error(source: Seq<char>) -> Seq<char> {
    source + " contains no character tokens"@
}

/// The entries of a vocabulary map as plain values: each token name with
/// its id when that is an unsigned integer.
pub open spec fn entries_view(entries: Seq<(String, Option<u64>)>) -> Seq<(Seq<char>, Option<u64>)> {
    entries.map_values(|e: (String, Option<u64>)| (e.0@, e.1))
}

/// `r` is the vocabulary built from the map entries `view`, or the error
/// for a map without character tokens.
pub open spec fn vocabulary_built(
    view: Seq<(Seq<char>, Option<u64>)>,
    source: Seq<char>,
    r: Result<Vocabulary, String>,
) -> bool {
    match r {
        Ok(v) => char_pairs(view).len() > 0 && v@ == (
            pairs_map(char_pairs(view)),
            blank_of(view),
            match entry_id(view, "|"@) {
                Some(d) => Some(d as usize),
                None => None,
            },
        ),
        Err(e) => char_pairs(view).len() == 0 && e@ == no_tokens_error(source),
    }
}

fn entry_lookup(entries: &Vec<(String, Option<u64>)>, key: &str) -> (r: Option<u64>)
    ensures
        r == entry_id(entries@.map_values(|e: (String, Option<u64>)| (e.0@, e.1)), key@),
{
    let ghost view = entries@.map_values(|e: (String, Option<u64>)| (e.0@, e.1));
    let key_chars = chars_of(key);
    let mut i: usize = 0;
    assert(view.skip(0) == view);
    while i < entries.len()
        invariant
            i <= entries@.len(),
            view == entries@.map_values(|e: (String, Option<u64>)| (e.0@, e.1)),
            key_chars@ == key@,
            entry_value(view, key@) == entry_value(view.skip(i as int), key@),
        decreases entries.len() - i,
    {
        assert(view.skip(i as int)[0] == view[i as int]);
        assert(view.skip(i as int).drop_first() == view.skip(i + 1));
        let name = chars_of(entries[i].0.as_str());
        if seq_eq(&name, &key_chars) {
            return entries[i].1;
        }
        i = i + 1;
    }
    None
}

/// Whether two character sequences are equal.
pub fn seq_eq(a: &Vec<char>, b: &Vec<char>) -> (r: bool)
    ensures
        r == (a@ == b@),
{
    if a.len() != b.len() {
        return false;
    }
    let mut i: usize = 0;
    while i < a.len()
        invariant
            i <= a@.len(),
            a@.len() == b@.len(),
            forall|j: int| 0 <= j < i ==> a@[j] == b@[j],
        decreases a.len() - i,
    {
        if a[i] != b[i] {
            return false;
        }
        i = i + 1;
    }
    assert(a@ =~= b@);
    true
}

impl Vocabulary {
    /// A vocabulary from explicit character ids (later pairs override
    /// earlier ones for the same character).
    pub fn new(tokens: Vec<(char, usize)>, blank_id: usize, delimiter_id: Option<usize>) -> (v: Self)
        ensures
            v@ == (pairs_map(tokens@), blank_id, delimiter_id),
    {
        Vocabulary { tokens, blank_id, delimiter_id }
    }

    /// Builds the vocabulary from the entries of a tokenizer vocabulary map
    /// (token name and its id when the id is an unsigned integer). Only
    /// single-character tokens become character ids; multi-character
    /// tokens (sub-words, specials) are ignored. `source` names the file in
    /// the error returned when no character token is left.
    pub fn from_entries(entries: &Vec<(String, Option<u64>)>, source: &str) -> (r: Result<Self, String>)
        ensures
            vocabulary_built(entries_view(entries@), source@, r),
    {
        let ghost view = entries@.map_values(|e: (String, Option<u64>)| (e.0@, e.1));
        let blank_id: usize = match entry_lookup(entries, "<pad>") {
            Some(v) => v as usize,
            None => match entry_lookup(entries, "[PAD]") {
                Some(v) => v as usize,
                None => match entry_lookup(entries, "<blank>") {
                    Some(v) => v as usize,
                    None => BLANK_ID,
                },
            },
        };
        let delimiter_id: Option<usize> = match entry_lookup(entries, "|") {
            Some(d) => Some(d as usize),
            None => None,
        };
        let mut tokens: Vec<(char, usize)> = Vec::new();
        let mut i: usize = 0;
        while i < entries.len()
            invariant
                i <= entries@.len(),
                view == entries@.map_values(|e: (String, Option<u64>)| (e.0@, e.1)),
                tokens@ == char_pairs(view.take(i as int)),
            decreases entries.len() - i,
        {
            assert(view.take(i + 1).drop_last() == view.take(i as int));
            let name = chars_of(entries[i].0.as_str());
            if name.len() == 1 {
                if let Some(id) = entries[i].1 {
                    tokens.push((name[0], id as usize));
                }
            }
            i = i + 1;
        }
        assert(view.take(entries.len() as int) == view);
        if tokens.len() == 0 {
            let mut message: Vec<char> = Vec::new();
            extend_str(&mut message, source);
            extend_str(&mut message, " contains no character tokens");
            return Err(string_from(&message));
        }
        Ok(Vocabulary { tokens, blank_id, delimiter_id })
    }

    /// The id of the word delimiter `|`, if the vocabulary has one.
    pub fn delimiter_id(&self) -> (r: Option<usize>)
        ensures
            r == self@.2,
    {
        self.delimiter_id
    }

    /// The id of `c`, if the vocabulary has it.
    pub fn token_id(&self, c: char) -> (r: Option<usize>)
        ensures
            r == (if self@.0.contains_key(c) {
                Some(self@.0[c])
            } else {
                None
            }),
    {
        let mut i = self.tokens.len();
        assert(self.tokens@.take(i as int) == self.tokens@);
        while i > 0
            invariant
                i <= self.tokens@.len(),
                forall|j: int| i <= j < self.tokens@.len() ==> self.tokens@[j].0 != c,
                pairs_map(self.tokens@).contains_key(c) == pairs_map(self.tokens@.take(i as int)).contains_key(c),
                pairs_map(self.tokens@).contains_key(c) ==> pairs_map(self.tokens@)[c] == pairs_map(self.tokens@.take(i as int))[c],
            decreases i,
        {
            let ghost t = self.tokens@.take(i as int);
            assert(t.drop_last() == self.tokens@.take(i - 1));
            if self.tokens[i - 1].0 == c {
                assert(pairs_map(t) == pairs_map(t.drop_last()).insert(c, self.tokens@[i - 1].1));
                return Some(self.tokens[i - 1].1);
            }
            i = i - 1;
        }
        assert(self.tokens@.take(0) == Seq::<(char, usize)>::empty());
        None
    }
}

/// The places a Hugging Face vocabulary file may keep its token map:
/// `model.vocab` (a `tokenizer.json`), `vocab` and the document itself.
/// Each of the first two is absent (`None`) or present, and then a JSON
/// object with its entries (`Some(Some(..))`) or another value
/// (`Some(None)`); the document is an object with its entries or not.
pub type VocabularyPlaces = (
    Option<Option<Vec<(String, Option<u64>)>>>,
    Option<Option<Vec<(String, Option<u64>)>>>,
    Option<Vec<(String, Option<u64>)>>,
);

/// The entries of a JSON object, if the value was one.
pub open spec fn object_view(o: Option<Vec<(String, Option<u64>)>>) -> Option<Seq<(Seq<char>, Option<u64>)>> {
    match o {
        Some(v) => Some(entries_view(v@)),
        None => None,
    }
}

/// A member that may be absent, and an object or not when present.
pub open spec fn member_view(m: Option<Option<Vec<(String, Option<u64>)>>>) -> Option<
    Option<Seq<(Seq<char>, Option<u64>)>>,
> {
    match m {
        Some(o) => Some(object_view(o)),
        None => None,
    }
}

/// A parsed vocabulary document as plain values, or the parser's message.
pub open spec fn places_view(r: Result<VocabularyPlaces, String>) -> Result<
    (
        Option<Option<Seq<(Seq<char>, Option<u64>)>>>,
        Option<Option<Seq<(Seq<char>, Option<u64>)>>>,
        Option<Seq<(Seq<char>, Option<u64>)>>,
    ),
    Seq<char>,
> {
    match r {
        Ok(p) => Ok((member_view(p.0), member_view(p.1), object_view(p.2))),
        Err(e) => Err(e@),
    }
}

/// What `serde_json` makes of a vocabulary file's bytes: the parse
/// error's message, or the three places of [`VocabularyPlaces`].
pub uninterp spec fn vocab_json(bytes: Seq<u8>) -> Result<(Option<Option<Seq<(Seq<char>, Option<u64>)>>>, Option<Option<Seq<(Seq<char>, Option<u64>)>>>, Option<Seq<(Seq<char>, Option<u64>)>>), Seq<char>>;

/// `serde_json::from_slice` into a `serde_json::Value`, then `Value::get`
/// of `model`/`vocab`, of `vocab`, and `Value::as_object` with each key
/// and `Value::as_u64` of its value. The result is a function of the
/// bytes alone (named [`vocab_json`]); `serde_json`'s grammar and its
/// error messages are not restated.
#[verifier::external_body]
fn read_vocabulary_places(bytes: &[u8]) -> (r: Result<VocabularyPlaces, String>)
    ensures
        places_view(r) == vocab_json(bytes@),
{
    let value: serde_json::Value = serde_json::from_slice(bytes).map_err(|error| error.to_string())?;
    let object = |v: &serde_json::Value| -> Option<Vec<(String, Option<u64>)>> {
        v.as_object().map(|map| map.iter().map(|(key, id)| (key.clone(), id.as_u64())).collect())
    };
    let nested = value.get("model").and_then(|model| model.get("vocab"));
    Ok((nested.map(object), value.get("vocab").map(object), object(&value)))
}

/// The token map a vocabulary document offers: `model.vocab` when
/// present, else `vocab` when present, else the document itself; `None`
/// when the chosen value is not a JSON object.
pub open spec fn chosen_map(
    places: (
        Option<Option<Seq<(Seq<char>, Option<u64>)>>>,
        Option<Option<Seq<(Seq<char>, Option<u64>)>>>,
        Option<Seq<(Seq<char>, Option<u64>)>>,
    ),
) -> Option<Seq<(Seq<char>, Option<u64>)>> {
    match places.0 {
        Some(m) => m,
        None => match places.1 {
            Some(v) => v,
            None => places.2,
        },
    }
}

/// The message for a vocabulary file that is not JSON.
pub open spec fn invalid_vocabulary_error(source: Seq<char>, message: Seq<char>) -> Seq<char> {
    "invalid vocabulary JSON "@ + source + ": "@ + message
}

/// The message for a vocabulary file without a token map.
pub open spec fn map_not_found_error(source: Seq<char>) -> Seq<char> {
    "vocabulary map was not found in "@ + source
}

/// `r` is the vocabulary read from the parsed document `parsed`.
pub open spec fn vocabulary_read(
    parsed: Result<
        (
            Option<Option<Seq<(Seq<char>, Option<u64>)>>>,
            Option<Option<Seq<(Seq<char>, Option<u64>)>>>,
            Option<Seq<(Seq<char>, Option<u64>)>>,
        ),
        Seq<char>,
    >,
    source: Seq<char>,
    r: Result<Vocabulary, String>,
) -> bool {
    match parsed {
        Err(message) => r is Err && r->Err_0@ == invalid_vocabulary_error(source, message),
        Ok(places) => match chosen_map(places) {
            None => r is Err && r->Err_0@ == map_not_found_error(source),
            Some(view) => vocabulary_built(view, source, r),
        },
    }
}

/// Builds the vocabulary from a parsed vocabulary document: the token map
/// is chosen as [`chosen_map`] says and handed to
/// [`Vocabulary::from_entries`]. `source` names the file in errors.
pub fn vocabulary_from_places(parsed: Result<VocabularyPlaces, String>, source: &str) -> (r: Result<
    Vocabulary,
    String,
>)
    ensures
        vocabulary_read(places_view(parsed), source@, r),
{
    match parsed {
        Err(message) => {
            let mut text: Vec<char> = Vec::new();
            extend_str(&mut text, "invalid vocabulary JSON ");
            extend_str(&mut text, source);
            extend_str(&mut text, ": ");
            extend_str(&mut text, message.as_str());
            Err(string_from(&text))
        },
        Ok((nested, top_vocab, document)) => {
            let chosen = match nested {
                Some(map) => map,
                None => match top_vocab {
                    Some(map) => map,
                    None => document,
                },
            };
            match chosen {
                None => {
                    let mut text: Vec<char> = Vec::new();
                    extend_str(&mut text, "vocabulary map was not found in ");
                    extend_str(&mut text, source);
                    Err(string_from(&text))
                },
                Some(entries) => Vocabulary::from_entries(&entries, source),
            }
        },
    }
}

/// Reads a vocabulary from the bytes of a Hugging Face `tokenizer.json` or
/// `vocab.json`: the document is parsed, its token map chosen and its
/// single-character tokens taken (see [`vocabulary_read`]).
pub fn vocabulary_from_json(bytes: &[u8], source: &str) -> (r: Result<Vocabulary, String>)
    ensures
        vocabulary_read(vocab_json(bytes@), source@, r),
{
    let parsed = read_vocabulary_places(bytes);
    vocabulary_from_places(parsed, source)
}

/// Hiragana, katakana or CJK unified ideographs (extension A included).
pub open spec fn is_japanese_char(c: char) -> bool {
    let u = c as u32;
    (0x3040 <= u <= 0x30ff) || (0x3400 <= u <= 0x4dbf) || (0x4e00 <= u <= 0x9fff)
}

/// Whether `c` is hiragana, katakana or a CJK unified ideograph.
pub fn is_japanese_character(c: char) -> (b: bool)
    ensures
        b == is_japanese_char(c),
{
    let u = c as u32;
    (0x3040 <= u && u <= 0x30ff) || (0x3400 <= u && u <= 0x4dbf) || (0x4e00 <= u && u <= 0x9fff)
}

/// ASCII letters and digits.
pub open spec fn is_ascii_alnum(c: char) -> bool {
    ('0' <= c <= '9') || ('A' <= c <= 'Z') || ('a' <= c <= 'z')
}

/// Characters the Japanese model is expected to align: Japanese script,
/// ASCII letters and digits, and the long vowel mark.
pub open spec fn is_alignable_char(c: char) -> bool {
    is_japanese_char(c) || is_ascii_alnum(c) || c == 'ー'
}

/// Whether `c` should be alignable by the Japanese model.
pub fn is_alignable_character(c: char) -> (b: bool)
    ensures
        b == is_alignable_char(c),
{
    is_japanese_character(c) || ('0' <= c && c <= '9') || ('A' <= c && c <= 'Z') || ('a' <= c && c
        <= 'z') || c == 'ー'
}

/// `char::to_ascii_uppercase`.
pub open spec fn ascii_upper(c: char) -> char {
    if 'a' <= c <= 'z' {
        ((c as u32) - 32) as char
    } else {
        c
    }
}

/// `char::to_ascii_uppercase`.
pub fn to_ascii_uppercase(c: char) -> (r: char)
    ensures
        r == ascii_upper(c),
{
    if 'a' <= c && c <= 'z' {
        let b = (c as u8) - 32;
        assert(b as char == ((c as u32) - 32) as char);
        b as char
    } else {
        c
    }
}

/// What English normalisation maps a character to: quotes are unified to
/// the straight apostrophe (which the English vocabulary holds, so a
/// straight `'` is kept and curly quotes and backquotes become one), ASCII
/// letters are upper-cased, whitespace and `-` become a space, and anything
/// else is dropped.
pub open spec fn english_char(c: char) -> Option<char> {
    if c == '\'' || c == '’' || c == '‘' || c == '`' {
        Some('\'')
    } else if ('a' <= c <= 'z') || ('A' <= c <= 'Z') {
        Some(ascii_upper(c))
    } else if is_ws(c) || c == '-' {
        Some(' ')
    } else {
        None
    }
}

/// English normalisation of a text, character by character.
pub open spec fn normalize_english_spec(s: Seq<char>) -> Seq<char>
    decreases s.len(),
{
    if s.len() == 0 {
        s
    } else {
        let earlier = normalize_english_spec(s.drop_last());
        match english_char(s.last()) {
            Some(c) => earlier.push(c),
            None => earlier,
        }
    }
}

/// Normalises English text for tokenisation.
pub fn normalize_english(text: &str) -> (out: Vec<char>)
    ensures
        out@ == normalize_english_spec(text@),
{
    let cs = chars_of(text);
    let mut out: Vec<char> = Vec::new();
    let mut i: usize = 0;
    while i < cs.len()
        invariant
            i <= cs@.len(),
            cs@ == text@,
            out@ == normalize_english_spec(cs@.take(i as int)),
        decreases cs.len() - i,
    {
        assert(cs@.take(i + 1).drop_last() == cs@.take(i as int));
        let c = cs[i];
        if c == '\'' || c == '’' || c == '‘' || c == '`' {
            out.push('\'');
        } else if ('a' <= c && c <= 'z') || ('A' <= c && c <= 'Z') {
            out.push(to_ascii_uppercase(c));
        } else if is_whitespace(c) || c == '-' {
            out.push(' ');
        }
        i = i + 1;
    }
    assert(cs@.take(cs.len() as int) == cs@);
    out
}

/// Unicode normalisation form KC of a text, as computed by the
/// `unicode-normalization` crate.
pub uninterp spec fn nfkc(s: Seq<char>) -> Seq<char>;

/// `UnicodeNormalization::nfkc` from `unicode-normalization`, collected
/// into a string: the result is the NFKC form of `s`, a function of `s`
/// alone (named [`nfkc`]; its tables are not restated here).
#[verifier::external_body]
fn nfkc_string(s: &str) -> (r: String)
    ensures
        r@ == nfkc(s@),
{
    s.nfkc().collect()
}

/// What Japanese normalisation maps a character of the NFKC text to:
/// whitespace becomes a space and ASCII letters are upper-cased.
pub open spec fn japanese_char(c: char) -> char {
    if is_ws(c) {
        ' '
    } else {
        ascii_upper(c)
    }
}

/// Japanese normalisation: NFKC, then [`japanese_char`] on each character.
pub open spec fn normalize_japanese_spec(s: Seq<char>) -> Seq<char> {
    nfkc(s).map_values(|c: char| japanese_char(c))
}

/// Normalises Japanese text for tokenisation.
pub fn normalize_japanese(text: &str) -> (out: Vec<char>)
    ensures
        out@ == normalize_japanese_spec(text@),
{
    let normalized = nfkc_string(text);
    let cs = chars_of(normalized.as_str());
    let mut out: Vec<char> = Vec::new();
    let mut i: usize = 0;
    while i < cs.len()
        invariant
            i <= cs@.len(),
            cs@ == nfkc(text@),
            out@ == cs@.take(i as int).map_values(|c: char| japanese_char(c)),
        decreases cs.len() - i,
    {
        let c = cs[i];
        if is_whitespace(c) {
            out.push(' ');
        } else {
            out.push(to_ascii_uppercase(c));
        }
        i = i + 1;
        assert(cs@.take(i as int).map_values(|c: char| japanese_char(c)) =~= cs@.take(i - 1).map_values(
            |c: char| japanese_char(c),
        ).push(japanese_char(c)));
    }
    assert(cs@.take(cs.len() as int) == cs@);
    out
}

/// The fixed letter-to-id table of the English model's vocabulary.
pub open spec fn english_id(c: char) -> Option<usize> {
    if c == '|' { Some(WORD_DELIMITER_ID) }
    else if c == 'E' { Some(5) }
    else if c == 'T' { Some(6) }
    else if c == 'A' { Some(7) }
    else if c == 'O' { Some(8) }
    else if c == 'N' { Some(9) }
    else if c == 'I' { Some(10) }
    else if c == 'H' { Some(11) }
    else if c == 'S' { Some(12) }
    else if c == 'R' { Some(13) }
    else if c == 'D' { Some(14) }
    else if c == 'L' { Some(15) }
    else if c == 'U' { Some(16) }
    else if c == 'M' { Some(17) }
    else if c == 'W' { Some(18) }
    else if c == 'C' { Some(19) }
    else if c == 'F' { Some(20) }
    else if c == 'G' { Some(21) }
    else if c == 'Y' { Some(22) }
    else if c == 'P' { Some(23) }
    else if c == 'B' { Some(24) }
    else if c == 'V' { Some(25) }
    else if c == 'K' { Some(26) }
    else if c == '\'' { Some(27) }
    else if c == 'X' { Some(28) }
    else if c == 'J' { Some(29) }
    else if c == 'Q' { Some(30) }
    else if c == 'Z' { Some(31) }
    else { None }
}

/// The English model's id for `character`.
pub fn english_token_id(character: char) -> (r: Option<usize>)
    ensures
        r == english_id(character),
{
    if character == '|' { Some(WORD_DELIMITER_ID) }
    else if character == 'E' { Some(5) }
    else if character == 'T' { Some(6) }
    else if character == 'A' { Some(7) }
    else if character == 'O' { Some(8) }
    else if character == 'N' { Some(9) }
    else if character == 'I' { Some(10) }
    else if character == 'H' { Some(11) }
    else if character == 'S' { Some(12) }
    else if character == 'R' { Some(13) }
    else if character == 'D' { Some(14) }
    else if character == 'L' { Some(15) }
    else if character == 'U' { Some(16) }
    else if character == 'M' { Some(17) }
    else if character == 'W' { Some(18) }
    else if character == 'C' { Some(19) }
    else if character == 'F' { Some(20) }
    else if character == 'G' { Some(21) }
    else if character == 'Y' { Some(22) }
    else if character == 'P' { Some(23) }
    else if character == 'B' { Some(24) }
    else if character == 'V' { Some(25) }
    else if character == 'K' { Some(26) }
    else if character == '\'' { Some(27) }
    else if character == 'X' { Some(28) }
    else if character == 'J' { Some(29) }
    else if character == 'Q' { Some(30) }
    else if character == 'Z' { Some(31) }
    else { None }
}


/// The letters of the `facebook/wav2vec2-base-960h` vocabulary, in the
/// order of their ids 5, 6, 7, ... (its `vocab.json`).
pub open spec fn model_letters() -> Seq<char> {
    seq!['E', 'T', 'A', 'O', 'N', 'I', 'H', 'S', 'R', 'D', 'L', 'U', 'M', 'W', 'C', 'F', 'G', 'Y', 'P', 'B', 'V', 'K', '\'', 'X', 'J', 'Q', 'Z']
}

/// The English ids are the model's vocabulary: the letter at position `k`
/// of [`model_letters`] has id `k + 5`, the word delimiter `|` has id 4,
/// and no other character has an id.
pub proof fn english_ids_follow_the_model_vocabulary()
    ensures
        model_letters().len() == 27,
        forall|k: int| 0 <= k < 27 ==> english_id(#[trigger] model_letters()[k]) == Some((k + 5) as usize),
        english_id('|') == Some(4usize),
        forall|c: char| #[trigger] english_id(c) is Some ==> c == '|' || model_letters().contains(c),
{
    assert forall|k: int| 0 <= k < 27 implies english_id(#[trigger] model_letters()[k]) == Some((k + 5) as usize) by {
        if k == 0 {
            assert(model_letters()[0] == 'E');
        } else if k == 1 {
            assert(model_letters()[1] == 'T');
        } else if k == 2 {
            assert(model_letters()[2] == 'A');
        } else if k == 3 {
            assert(model_letters()[3] == 'O');
        } else if k == 4 {
            assert(model_letters()[4] == 'N');
        } else if k == 5 {
            assert(model_letters()[5] == 'I');
        } else if k == 6 {
            assert(model_letters()[6] == 'H');
        } else if k == 7 {
            assert(model_letters()[7] == 'S');
        } else if k == 8 {
            assert(model_letters()[8] == 'R');
        } else if k == 9 {
            assert(model_letters()[9] == 'D');
        } else if k == 10 {
            assert(model_letters()[10] == 'L');
        } else if k == 11 {
            assert(model_letters()[11] == 'U');
        } else if k == 12 {
            assert(model_letters()[12] == 'M');
        } else if k == 13 {
            assert(model_letters()[13] == 'W');
        } else if k == 14 {
            assert(model_letters()[14] == 'C');
        } else if k == 15 {
            assert(model_letters()[15] == 'F');
        } else if k == 16 {
            assert(model_letters()[16] == 'G');
        } else if k == 17 {
            assert(model_letters()[17] == 'Y');
        } else if k == 18 {
            assert(model_letters()[18] == 'P');
        } else if k == 19 {
            assert(model_letters()[19] == 'B');
        } else if k == 20 {
            assert(model_letters()[20] == 'V');
        } else if k == 21 {
            assert(model_letters()[21] == 'K');
        } else if k == 22 {
            assert(model_letters()[22] == '\'');
        } else if k == 23 {
            assert(model_letters()[23] == 'X');
        } else if k == 24 {
            assert(model_letters()[24] == 'J');
        } else if k == 25 {
            assert(model_letters()[25] == 'Q');
        } else if k == 26 {
            assert(model_letters()[26] == 'Z');
        }
    }
    assert forall|c: char| #[trigger] english_id(c) is Some implies c == '|' || model_letters().contains(c) by {
        if c != '|' {
            if c == 'E' { assert(model_letters()[0] == c); }
            if c == 'T' { assert(model_letters()[1] == c); }
            if c == 'A' { assert(model_letters()[2] == c); }
            if c == 'O' { assert(model_letters()[3] == c); }
            if c == 'N' { assert(model_letters()[4] == c); }
            if c == 'I' { assert(model_letters()[5] == c); }
            if c == 'H' { assert(model_letters()[6] == c); }
            if c == 'S' { assert(model_letters()[7] == c); }
            if c == 'R' { assert(model_letters()[8] == c); }
            if c == 'D' { assert(model_letters()[9] == c); }
            if c == 'L' { assert(model_letters()[10] == c); }
            if c == 'U' { assert(model_letters()[11] == c); }
            if c == 'M' { assert(model_letters()[12] == c); }
            if c == 'W' { assert(model_letters()[13] == c); }
            if c == 'C' { assert(model_letters()[14] == c); }
            if c == 'F' { assert(model_letters()[15] == c); }
            if c == 'G' { assert(model_letters()[16] == c); }
            if c == 'Y' { assert(model_letters()[17] == c); }
            if c == 'P' { assert(model_letters()[18] == c); }
            if c == 'B' { assert(model_letters()[19] == c); }
            if c == 'V' { assert(model_letters()[20] == c); }
            if c == 'K' { assert(model_letters()[21] == c); }
            if c == '\'' { assert(model_letters()[22] == c); }
            if c == 'X' { assert(model_letters()[23] == c); }
            if c == 'J' { assert(model_letters()[24] == c); }
            if c == 'Q' { assert(model_letters()[25] == c); }
            if c == 'Z' { assert(model_letters()[26] == c); }
        }
    }
}

/// The texts of the lines, in order.
pub open spec fn line_texts(lines: Seq<LyricLine>) -> Seq<Seq<char>> {
    lines.map_values(|l: LyricLine| l.original_text@)
}

/// Tokenisation state: the tokens so far, the line owning each, and
/// whether a word break is pending before the next token.
pub type TokenState = (Seq<usize>, Seq<usize>, bool);

/// One character of a normalised line `line`: a space marks a pending
/// word break (only once some token exists); a character with an id
/// appends that token, preceded by the delimiter when a break is pending
/// and the vocabulary has a delimiter; any other character is skipped.
pub open spec fn token_step(
    state: TokenState,
    c: char,
    id: spec_fn(char) -> Option<usize>,
    delimiter: Option<usize>,
    line: int,
) -> TokenState {
    let (tokens, owners, pending) = state;
    if c == ' ' {
        (tokens, owners, tokens.len() > 0)
    } else {
        match id(c) {
            None => state,
            Some(token) => {
                let (t, o) = if pending && delimiter.is_some() {
                    (tokens.push(delimiter->0), owners.push(line as usize))
                } else {
                    (tokens, owners)
                };
                (t.push(token), o.push(line as usize), false)
            },
        }
    }
}

/// The state after the characters `chars` of line `line`.
pub open spec fn token_chars(
    state: TokenState,
    chars: Seq<char>,
    id: spec_fn(char) -> Option<usize>,
    delimiter: Option<usize>,
    line: int,
) -> TokenState
    decreases chars.len(),
{
    if chars.len() == 0 {
        state
    } else {
        token_step(token_chars(state, chars.drop_last(), id, delimiter, line), chars.last(), id, delimiter, line)
    }
}

/// Tokens and owners of whole normalised lines. Each line starts with a
/// pending break when tokens already exist, so lines are separated by one
/// delimiter and no delimiter precedes the first token.
pub open spec fn token_lines(
    lines: Seq<Seq<char>>,
    id: spec_fn(char) -> Option<usize>,
    delimiter: Option<usize>,
) -> (Seq<usize>, Seq<usize>)
    decreases lines.len(),
{
    if lines.len() == 0 {
        (Seq::empty(), Seq::empty())
    } else {
        let (t, o) = token_lines(lines.drop_last(), id, delimiter);
        let end = token_chars((t, o, t.len() > 0), lines.last(), id, delimiter, lines.len() - 1);
        (end.0, end.1)
    }
}

/// The id function of a vocabulary (the English table when there is none).
pub open spec fn id_of(vocabulary: Option<Vocabulary>) -> spec_fn(char) -> Option<usize> {
    match vocabulary {
        None => |c: char| english_id(c),
        Some(v) => |c: char| if v@.0.contains_key(c) { Some(v@.0[c]) } else { None },
    }
}

/// The normalised texts: English or (with a vocabulary) Japanese.
pub open spec fn normalized_texts(texts: Seq<Seq<char>>, vocabulary: Option<Vocabulary>) -> Seq<Seq<char>> {
    match vocabulary {
        None => texts.map_values(|t: Seq<char>| normalize_english_spec(t)),
        Some(v) => texts.map_values(|t: Seq<char>| normalize_japanese_spec(t)),
    }
}

/// Tokens and owners for the lyric texts `texts`.
pub open spec fn transcript_of(texts: Seq<Seq<char>>, vocabulary: Option<Vocabulary>, delimiter: Option<usize>) -> (Seq<usize>, Seq<usize>) {
    token_lines(normalized_texts(texts, vocabulary), id_of(vocabulary), delimiter)
}

/// `t` holds exactly the tokens and owners of `spec_result`.
pub open spec fn transcript_is(t: Transcript, spec_result: (Seq<usize>, Seq<usize>), delimiter: Option<usize>) -> bool {
    &&& t.token_ids@ == spec_result.0
    &&& t.line_indices@ == spec_result.1
    &&& t.delimiter_id == delimiter
}

fn tokenize_with(
    lyrics: &Vec<LyricLine>,
    vocabulary: Option<&Vocabulary>,
    delimiter_id: Option<usize>,
    empty_error: &str,
) -> (r: Result<Transcript, String>)
    ensures
        ({
            let voc = match vocabulary { Some(v) => Some(*v), None => None };
            let expected = transcript_of(line_texts(lyrics@), voc, delimiter_id);
            match r {
                Ok(t) => expected.0.len() > 0 && transcript_is(t, expected, delimiter_id),
                Err(e) => expected.0.len() == 0 && e@ == empty_error@,
            }
        }),
{
    let ghost voc = match vocabulary { Some(v) => Some(*v), None => None::<Vocabulary> };
    let ghost id = id_of(voc);
    let ghost texts = normalized_texts(line_texts(lyrics@), voc);
    let mut token_ids: Vec<usize> = Vec::new();
    let mut line_indices: Vec<usize> = Vec::new();
    let mut line_index: usize = 0;
    while line_index < lyrics.len()
        invariant
            line_index <= lyrics@.len(),
            voc == (match vocabulary { Some(v) => Some(*v), None => None::<Vocabulary> }),
            id == id_of(voc),
            texts == normalized_texts(line_texts(lyrics@), voc),
            (token_ids@, line_indices@) == token_lines(texts.take(line_index as int), id, delimiter_id),
        decreases lyrics.len() - line_index,
    {
        let normalized = match vocabulary {
            None => normalize_english(lyrics[line_index as usize].original_text.as_str()),
            Some(v) => normalize_japanese(lyrics[line_index as usize].original_text.as_str()),
        };
        assert(normalized@ == texts[line_index as int]);
        assert(texts.take(line_index + 1).drop_last() == texts.take(line_index as int));
        let ghost start: TokenState = (token_ids@, line_indices@, token_ids@.len() > 0);
        let mut pending = token_ids.len() > 0;
        let mut k: usize = 0;
        assert(normalized@.take(0) == Seq::<char>::empty());
        while k < normalized.len()
            invariant
                k <= normalized@.len(),
                line_index < lyrics@.len(),
                id == id_of(voc),
                voc == (match vocabulary { Some(v) => Some(*v), None => None::<Vocabulary> }),
                (token_ids@, line_indices@, pending) == token_chars(start, normalized@.take(k as int), id, delimiter_id, line_index as int),
            decreases normalized.len() - k,
        {
            assert(normalized@.take(k + 1).drop_last() == normalized@.take(k as int));
            let character = normalized[k];
            if character == ' ' {
                pending = token_ids.len() > 0;
            } else {
                let token = match vocabulary {
                    None => english_token_id(character),
                    Some(v) => v.token_id(character),
                };
                if let Some(token) = token {
                    if pending {
                        if let Some(delimiter) = delimiter_id {
                            token_ids.push(delimiter);
                            line_indices.push(line_index);
                        }
                        pending = false;
                    }
                    token_ids.push(token);
                    line_indices.push(line_index);
                }
            }
            k = k + 1;
        }
        assert(normalized@.take(normalized.len() as int) == normalized@);
        line_index = line_index + 1;
    }
    assert(texts.take(lyrics.len() as int) == texts);
    if token_ids.len() == 0 {
        return Err(string_from(&chars_of(empty_error)));
    }
    Ok(Transcript { token_ids, line_indices, delimiter_id })
}

/// The English transcript of the lyrics.
pub open spec fn english_transcript(lines: Seq<LyricLine>) -> (Seq<usize>, Seq<usize>) {
    transcript_of(line_texts(lines), None, Some(WORD_DELIMITER_ID))
}

/// Tokenises the lyrics with the English model's fixed vocabulary.
pub fn tokenize_english(lyrics: &Vec<LyricLine>) -> (r: Result<Transcript, String>)
    ensures
        match r {
            Ok(t) => english_transcript(lyrics@).0.len() > 0 && transcript_is(t, english_transcript(lyrics@), Some(WORD_DELIMITER_ID)),
            Err(e) => english_transcript(lyrics@).0.len() == 0 && e@ == "lyrics contain no English characters that can be aligned"@,
        },
{
    tokenize_with(lyrics, None, Some(WORD_DELIMITER_ID), "lyrics contain no English characters that can be aligned")
}

/// The English tokenizer under its shorter name.
pub fn tokenize(lyrics: &Vec<LyricLine>) -> (r: Result<Transcript, String>)
    ensures
        match r {
            Ok(t) => english_transcript(lyrics@).0.len() > 0 && transcript_is(t, english_transcript(lyrics@), Some(WORD_DELIMITER_ID)),
            Err(e) => english_transcript(lyrics@).0.len() == 0 && e@ == "lyrics contain no English characters that can be aligned"@,
        },
{
    tokenize_english(lyrics)
}

/// The transcript depends on the lyric texts alone: lines that differ only
/// in readings, timing or ids tokenise identically, so a pronunciation
/// guide never changes the alignment tokens.
pub proof fn transcript_ignores_everything_but_text(a: Seq<LyricLine>, b: Seq<LyricLine>, vocabulary: Option<Vocabulary>, delimiter: Option<usize>)
    requires
        a.len() == b.len(),
        forall|i: int| 0 <= i < a.len() ==> (#[trigger] a[i]).original_text@ == b[i].original_text@,
    ensures
        transcript_of(line_texts(a), vocabulary, delimiter) == transcript_of(line_texts(b), vocabulary, delimiter),
{
    assert(line_texts(a) =~= line_texts(b));
}


proof fn lemma_token_chars_owners(
    state: TokenState,
    chars: Seq<char>,
    id: spec_fn(char) -> Option<usize>,
    delimiter: Option<usize>,
    line: int,
)
    requires
        0 <= line <= usize::MAX,
        state.0.len() == state.1.len(),
    ensures
        ({
            let end = token_chars(state, chars, id, delimiter, line);
            &&& end.0.len() == end.1.len()
            &&& end.1.len() >= state.1.len()
            &&& forall|i: int| 0 <= i < state.1.len() ==> #[trigger] end.1[i] == state.1[i]
            &&& forall|i: int| state.1.len() <= i < end.1.len() ==> #[trigger] end.1[i] == line
        }),
    decreases chars.len(),
{
    if chars.len() > 0 {
        lemma_token_chars_owners(state, chars.drop_last(), id, delimiter, line);
    }
}

/// Every token is owned by an existing line, tokens come in line order,
/// and there is exactly one owner per token.
pub proof fn transcript_owners_follow_lines(
    lines: Seq<Seq<char>>,
    id: spec_fn(char) -> Option<usize>,
    delimiter: Option<usize>,
)
    requires
        lines.len() <= usize::MAX,
    ensures
        ({
            let (t, o) = token_lines(lines, id, delimiter);
            &&& t.len() == o.len()
            &&& forall|i: int| 0 <= i < o.len() ==> (#[trigger] o[i]) < lines.len()
            &&& forall|i: int, j: int| 0 <= i <= j < o.len() ==> #[trigger] o[i] <= #[trigger] o[j]
        }),
    decreases lines.len(),
{
    if lines.len() > 0 {
        transcript_owners_follow_lines(lines.drop_last(), id, delimiter);
        let (t, o) = token_lines(lines.drop_last(), id, delimiter);
        lemma_token_chars_owners((t, o, t.len() > 0), lines.last(), id, delimiter, lines.len() - 1);
        let (t2, o2) = token_lines(lines, id, delimiter);
        assert forall|i: int, j: int| 0 <= i <= j < o2.len() implies #[trigger] o2[i] <= #[trigger] o2[j] by {
            if j < o.len() {
                assert(o2[i] == o[i]);
                assert(o2[j] == o[j]);
            } else if i < o.len() {
                assert(o2[i] == o[i]);
            }
        }
        assert forall|i: int| 0 <= i < o2.len() implies (#[trigger] o2[i]) < lines.len() by {
            if i < o.len() {
                assert(o2[i] == o[i]);
            }
        }
    }
}


/// `s` is in strictly increasing character order.
pub open spec fn strictly_sorted(s: Seq<char>) -> bool {
    forall|i: int, j: int| 0 <= i < j < s.len() ==> #[trigger] s[i] < #[trigger] s[j]
}

/// `c` occurs in one of the texts, should be alignable, but is missing
/// from the vocabulary.
pub open spec fn is_unsupported(texts: Seq<Seq<char>>, vocabulary: Vocabulary, c: char) -> bool {
    &&& is_alignable_char(c)
    &&& !vocabulary@.0.contains_key(c)
    &&& occurs_in(texts, texts.len() as int, c)
}

/// `c` occurs in one of the first `n` texts.
pub open spec fn occurs_in(texts: Seq<Seq<char>>, n: int, c: char) -> bool {
    exists|a: int| 0 <= a < n && #[trigger] texts[a].contains(c)
}

/// The message naming (at most twelve of) the unsupported characters.
pub open spec fn unsupported_error(sorted: Seq<char>) -> Seq<char> {
    "日本語モデルの語彙にない文字があります: "@ + sorted.take(if sorted.len() < 12 { sorted.len() as int } else { 12 })
        + "。ひらがな・カタカナへ置き換えてください"@
}

proof fn lemma_insert_contains(before: Seq<char>, p: int, c: char)
    requires
        0 <= p <= before.len(),
    ensures
        forall|x: char| before.insert(p, c).contains(x) <==> (before.contains(x) || x == c),
{
    let after = before.insert(p, c);
    assert forall|x: char| after.contains(x) <==> (before.contains(x) || x == c) by {
        if after.contains(x) {
            let k = choose|k: int| 0 <= k < after.len() && after[k] == x;
            if k < p {
                assert(before[k] == x);
            } else if k > p {
                assert(before[k - 1] == x);
            }
        }
        if before.contains(x) {
            let k = choose|k: int| 0 <= k < before.len() && before[k] == x;
            if k < p {
                assert(after[k] == x);
            } else {
                assert(after[k + 1] == x);
            }
        }
        if x == c {
            assert(after[p] == c);
        }
    }
}

proof fn lemma_insert_sorted(before: Seq<char>, p: int, c: char)
    requires
        strictly_sorted(before),
        0 <= p <= before.len(),
        forall|j: int| 0 <= j < p ==> before[j] < c,
        p < before.len() ==> before[p] > c,
    ensures
        strictly_sorted(before.insert(p, c)),
{
    let after = before.insert(p, c);
    assert forall|i: int, j: int| 0 <= i < j < after.len() implies #[trigger] after[i] < #[trigger] after[j] by {
        if j < p {
        } else if j == p {
        } else if i < p {
            assert(before[j - 1] >= before[p]);
        } else if i == p {
            assert(before[j - 1] >= before[p]);
        }
    }
}

fn insert_sorted(s: &mut Vec<char>, c: char)
    requires
        strictly_sorted(old(s)@),
    ensures
        strictly_sorted(final(s)@),
        forall|x: char| final(s)@.contains(x) <==> (old(s)@.contains(x) || x == c),
{
    let mut p: usize = 0;
    while p < s.len() && s[p] < c
        invariant
            s@ == old(s)@,
            p <= s@.len(),
            forall|j: int| 0 <= j < p ==> s@[j] < c,
        decreases s.len() - p,
    {
        p = p + 1;
    }
    if p < s.len() && s[p] == c {
        assert(s@[p as int] == c);
        assert(s@.contains(c));
        return;
    }
    let ghost before = s@;
    proof {
        lemma_insert_contains(before, p as int, c);
        lemma_insert_sorted(before, p as int, c);
    }
    s.insert(p, c);
    assert(s@ == before.insert(p as int, c));
    assert(before == old(s)@);
    assert forall|x: char| s@.contains(x) <==> (old(s)@.contains(x) || x == c) by {
        lemma_insert_contains(before, p as int, c);
    }
}

/// Tokenises the lyrics for the Japanese model with `vocabulary`. When an
/// alignable character (Japanese script, ASCII alphanumerics, `ー`) of the
/// normalised lyrics is missing from the vocabulary, the result is an error
/// naming those characters in code point order, at most twelve, so that
/// rare kanji can be replaced.
pub fn tokenize_japanese(lyrics: &Vec<LyricLine>, vocabulary: &Vocabulary) -> (r: Result<Transcript, String>)
    ensures
        ({
            let texts = normalized_texts(line_texts(lyrics@), Some(*vocabulary));
            let expected = transcript_of(line_texts(lyrics@), Some(*vocabulary), vocabulary@.2);
            match r {
                Ok(t) => {
                    &&& expected.0.len() > 0
                    &&& transcript_is(t, expected, vocabulary@.2)
                    &&& forall|c: char| !is_unsupported(texts, *vocabulary, c)
                },
                Err(e) => if expected.0.len() == 0 {
                    e@ == "lyrics contain no Japanese characters that can be aligned"@
                } else {
                    exists|sorted: Seq<char>|
                        #![trigger unsupported_error(sorted)]
                        strictly_sorted(sorted) && sorted.len() > 0 && (forall|c: char|
                            sorted.contains(c) <==> is_unsupported(texts, *vocabulary, c))
                            && e@ == unsupported_error(sorted)
                },
            }
        }),
{
    let transcript = tokenize_with(
        lyrics,
        Some(vocabulary),
        vocabulary.delimiter_id,
        "lyrics contain no Japanese characters that can be aligned",
    )?;
    let ghost texts = normalized_texts(line_texts(lyrics@), Some(*vocabulary));
    let mut unsupported: Vec<char> = Vec::new();
    let mut i: usize = 0;
    while i < lyrics.len()
        invariant
            i <= lyrics@.len(),
            texts == normalized_texts(line_texts(lyrics@), Some(*vocabulary)),
            strictly_sorted(unsupported@),
            forall|c: char| #[trigger] unsupported@.contains(c) <==> (is_alignable_char(c) && !vocabulary@.0.contains_key(c)
                && occurs_in(texts, i as int, c)),
        decreases lyrics.len() - i,
    {
        let normalized = normalize_japanese(lyrics[i].original_text.as_str());
        assert(normalized@ == texts[i as int]);
        let mut k: usize = 0;
        while k < normalized.len()
            invariant
                k <= normalized@.len(),
                i < lyrics@.len(),
                normalized@ == texts[i as int],
                strictly_sorted(unsupported@),
                forall|c: char| #[trigger] unsupported@.contains(c) <==> (is_alignable_char(c) && !vocabulary@.0.contains_key(c)
                    && (occurs_in(texts, i as int, c) || normalized@.take(k as int).contains(c))),
            decreases normalized.len() - k,
        {
            let c = normalized[k];
            let ghost before = unsupported@;
            if is_alignable_character(c) && vocabulary.token_id(c).is_none() {
                insert_sorted(&mut unsupported, c);
            }
            proof {
                let t0 = normalized@.take(k as int);
                let t1 = normalized@.take(k + 1);
                assert(t1 == t0.push(c));
                assert forall|x: char| t1.contains(x) <==> (t0.contains(x) || x == c) by {
                    if t1.contains(x) {
                        let w = choose|w: int| 0 <= w < t1.len() && t1[w] == x;
                        if w < k {
                            assert(t0[w] == x);
                        }
                    }
                    if t0.contains(x) {
                        let w = choose|w: int| 0 <= w < t0.len() && t0[w] == x;
                        assert(t1[w] == x);
                    }
                    if x == c {
                        assert(t1[k as int] == c);
                    }
                }
            }
            k = k + 1;
        }
        proof {
            assert(normalized@.take(normalized@.len() as int) == normalized@);
            assert forall|c: char| occurs_in(texts, i + 1, c) <==> (occurs_in(texts, i as int, c) || texts[i as int].contains(c)) by {
                if occurs_in(texts, i + 1, c) {
                    let a = choose|a: int| 0 <= a < i + 1 && #[trigger] texts[a].contains(c);
                    if a < i {
                        assert(occurs_in(texts, i as int, c));
                    }
                }
                if occurs_in(texts, i as int, c) {
                    let a = choose|a: int| 0 <= a < i && #[trigger] texts[a].contains(c);
                    assert(texts[a].contains(c));
                }
                if texts[i as int].contains(c) {
                    assert(texts[i as int].contains(c));
                }
            }
        }
        i = i + 1;
    }
    assert(texts.len() == lyrics@.len());
    if unsupported.len() > 0 {
        let shown: usize = if unsupported.len() < 12 { unsupported.len() } else { 12 };
        let mut message: Vec<char> = Vec::new();
        extend_str(&mut message, "日本語モデルの語彙にない文字があります: ");
        let mut k: usize = 0;
        let ghost head = message@;
        while k < shown
            invariant
                k <= shown <= unsupported@.len(),
                message@ == head + unsupported@.take(k as int),
            decreases shown - k,
        {
            message.push(unsupported[k]);
            k = k + 1;
            assert(unsupported@.take(k as int) == unsupported@.take(k - 1).push(unsupported@[k - 1]));
        }
        extend_str(&mut message, "。ひらがな・カタカナへ置き換えてください");
        proof {
            assert(message@ == unsupported_error(unsupported@));
        }
        return Err(string_from(&message));
    }
    proof {
        assert forall|c: char| !is_unsupported(texts, *vocabulary, c) by {
            if is_unsupported(texts, *vocabulary, c) {
                assert(unsupported@.contains(c));
            }
        }
    }
    Ok(transcript)
}

/// Whether the lyric texts contain Japanese script.
pub open spec fn has_japanese(lines: Seq<LyricLine>) -> bool {
    exists|i: int, j: int|
        0 <= i < lines.len() && 0 <= j < lines[i].original_text@.len() && is_japanese_char(#[trigger] lines[i].original_text@[j])
}

/// Japanese when any hiragana, katakana or kanji occurs in the lyrics,
/// English otherwise.
pub fn detect_language(lyrics: &Vec<LyricLine>) -> (r: AlignmentLanguage)
    ensures
        r == (if has_japanese(lyrics@) { AlignmentLanguage::Japanese } else { AlignmentLanguage::English }),
{
    let mut i: usize = 0;
    while i < lyrics.len()
        invariant
            i <= lyrics@.len(),
            forall|a: int, b: int|
                0 <= a < i && 0 <= b < lyrics@[a].original_text@.len() ==> !is_japanese_char(#[trigger] lyrics@[a].original_text@[b]),
        decreases lyrics.len() - i,
    {
        let text = chars_of(lyrics[i].original_text.as_str());
        let mut k: usize = 0;
        while k < text.len()
            invariant
                k <= text@.len(),
                i < lyrics@.len(),
                text@ == lyrics@[i as int].original_text@,
                forall|b: int| 0 <= b < k ==> !is_japanese_char(#[trigger] text@[b]),
            decreases text.len() - k,
        {
            if is_japanese_character(text[k]) {
                assert(is_japanese_char(lyrics@[i as int].original_text@[k as int]));
                return AlignmentLanguage::Japanese;
            }
            k = k + 1;
        }
        i = i + 1;
    }
    AlignmentLanguage::English
}

/// `str::to_ascii_lowercase` on one character.
pub open spec fn ascii_lower(c: char) -> char {
    if 'A' <= c <= 'Z' {
        ((c as u32) + 32) as char
    } else {
        c
    }
}

/// `char::to_ascii_lowercase`.
pub fn to_ascii_lowercase(c: char) -> (r: char)
    ensures
        r == ascii_lower(c),
{
    if 'A' <= c && c <= 'Z' {
        let b = (c as u8) + 32;
        assert(b as char == ((c as u32) + 32) as char);
        b as char
    } else {
        c
    }
}

/// The `{:?}` rendering of a string (quoted, with escapes), as std's
/// `Debug` for `str` produces it.
pub uninterp spec fn debug_str(s: Seq<char>) -> Seq<char>;

/// `<str as Debug>::fmt` through `format!("{:?}")`: the quoted, escaped
/// form of `s`, a function of `s` alone (named [`debug_str`]).
#[verifier::external_body]
fn debug_quoted(s: &str) -> (r: String)
    ensures
        r@ == debug_str(s@),
{
    format!("{s:?}")
}

/// The message for an unknown language mode.
pub open spec fn unknown_mode_error(mode: Seq<char>) -> Seq<char> {
    "unsupported lyric language mode "@ + debug_str(mode) + "; choose Auto, en, or jp"@
}

/// The language a mode resolves to, or the message for an unknown mode.
pub open spec fn language_choice(mode: Seq<char>, lyrics: Seq<LyricLine>) -> Result<
    AlignmentLanguage,
    Seq<char>,
> {
    let lower = mode.map_values(|c: char| ascii_lower(c));
    if lower == "auto"@ {
        Ok(
            if has_japanese(lyrics) {
                AlignmentLanguage::Japanese
            } else {
                AlignmentLanguage::English
            },
        )
    } else if lower == "en"@ {
        Ok(AlignmentLanguage::English)
    } else if lower == "jp"@ || lower == "ja"@ {
        Ok(AlignmentLanguage::Japanese)
    } else {
        Err(unknown_mode_error(mode))
    }
}

/// The view of a language resolution.
pub open spec fn language_view(r: Result<AlignmentLanguage, String>) -> Result<
    AlignmentLanguage,
    Seq<char>,
> {
    match r {
        Ok(language) => Ok(language),
        Err(e) => Err(e@),
    }
}

/// Resolves the GUI/CLI language mode (`auto`, `en`, `jp` or `ja`, in any
/// ASCII case); `auto` detects the language from the lyrics.
pub fn resolve_language(mode: &str, lyrics: &Vec<LyricLine>) -> (r: Result<AlignmentLanguage, String>)
    ensures
        language_view(r) == language_choice(mode@, lyrics@),
        ({
            let lower = mode@.map_values(|c: char| ascii_lower(c));
            if lower == "auto"@ {
                r == Ok::<AlignmentLanguage, String>(if has_japanese(lyrics@) { AlignmentLanguage::Japanese } else { AlignmentLanguage::English })
            } else if lower == "en"@ {
                r == Ok::<AlignmentLanguage, String>(AlignmentLanguage::English)
            } else if lower == "jp"@ || lower == "ja"@ {
                r == Ok::<AlignmentLanguage, String>(AlignmentLanguage::Japanese)
            } else {
                r.is_err() && r->Err_0@ == unknown_mode_error(mode@)
            }
        }),
{
    let cs = chars_of(mode);
    let mut lower: Vec<char> = Vec::new();
    let mut i: usize = 0;
    while i < cs.len()
        invariant
            i <= cs@.len(),
            cs@ == mode@,
            lower@ == cs@.take(i as int).map_values(|c: char| ascii_lower(c)),
        decreases cs.len() - i,
    {
        lower.push(to_ascii_lowercase(cs[i]));
        i = i + 1;
        assert(cs@.take(i as int).map_values(|c: char| ascii_lower(c)) =~= cs@.take(i - 1).map_values(
            |c: char| ascii_lower(c),
        ).push(ascii_lower(cs@[i - 1])));
    }
    assert(cs@.take(cs.len() as int) == cs@);
    if seq_eq(&lower, &chars_of("auto")) {
        Ok(detect_language(lyrics))
    } else if seq_eq(&lower, &chars_of("en")) {
        Ok(AlignmentLanguage::English)
    } else if seq_eq(&lower, &chars_of("jp")) || seq_eq(&lower, &chars_of("ja")) {
        Ok(AlignmentLanguage::Japanese)
    } else {
        let mut message: Vec<char> = Vec::new();
        extend_str(&mut message, "unsupported lyric language mode ");
        extend_str(&mut message, debug_quoted(mode).as_str());
        extend_str(&mut message, "; choose Auto, en, or jp");
        Err(string_from(&message))
    }
}

} // verus!
