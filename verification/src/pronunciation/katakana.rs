//! ARPAbet phonemes rendered as a readable katakana approximation, chosen for
//! singing practice rather than for linguistic precision.
//!
//! A word is read left to right. Each vowel, together with the consonant run
//! in front of it, becomes one syllable ([`onset`], or [`palatal_onset`] when
//! the run ends in `Y`). Consonants before the last one of a run get a short
//! vowel of their own ([`medial_prefix`]). A run that ends the word has no
//! vowel to attach to and is written with the vowel-less forms of [`coda`].
use vstd::prelude::*;

use super::phoneme::{base_of, is_vowel_base, str_equals, Phoneme};
use crate::text::{after_prefix, chars_of, extend_str, result_view, runs, runs_state, string_from};

verus! {

/// The view of an optional string slice.
pub open spec fn opt_str(o: Option<&str>) -> Option<Seq<char>> {
    match o {
        Some(s) => Some(s@),
        None => None,
    }
}

/// One of five table cells, by slot.
pub open spec fn pick5(
    slot: int,
    a: Seq<char>,
    i: Seq<char>,
    u: Seq<char>,
    e: Seq<char>,
    o: Seq<char>,
) -> Seq<char> {
    if slot == 0 {
        a
    } else if slot == 1 {
        i
    } else if slot == 2 {
        u
    } else if slot == 3 {
        e
    } else {
        o
    }
}

fn pick5_str(
    slot: usize,
    a: &'static str,
    i: &'static str,
    u: &'static str,
    e: &'static str,
    o: &'static str,
) -> (r: &'static str)
    ensures
        r@ == pick5(slot as int, a@, i@, u@, e@, o@),
{
    if slot == 0 {
        a
    } else if slot == 1 {
        i
    } else if slot == 2 {
        u
    } else if slot == 3 {
        e
    } else {
        o
    }
}

/// One of three table cells, by column.
pub open spec fn pick3(column: int, ya: Seq<char>, yu: Seq<char>, yo: Seq<char>) -> Seq<char> {
    if column == 0 {
        ya
    } else if column == 1 {
        yu
    } else {
        yo
    }
}

fn pick3_str(column: usize, ya: &'static str, yu: &'static str, yo: &'static str) -> (r:
    &'static str)
    ensures
        r@ == pick3(column as int, ya@, yu@, yo@),
{
    if column == 0 {
        ya
    } else if column == 1 {
        yu
    } else {
        yo
    }
}

/// The symbols of a phoneme sequence.
pub open spec fn symbols(ps: Seq<Phoneme>) -> Seq<Seq<char>> {
    ps.map_values(|p: Phoneme| p.symbol@)
}

/// Whether a symbol is a vowel.
pub open spec fn is_vowel_symbol(symbol: Seq<char>) -> bool {
    is_vowel_base(base_of(symbol))
}

/// Whether a symbol carries the "unstressed" digit `0` at its end.
pub open spec fn unstressed(symbol: Seq<char>) -> bool {
    symbol.len() > 0 && symbol.last() == '0'
}

fn ends_with_zero(s: &str) -> (r: bool)
    ensures
        r == unstressed(s@),
{
    let cs = chars_of(s);
    cs.len() > 0 && cs[cs.len() - 1] == '0'
}

/// A vowel on its own, with no consonant in front of it. Unstressed `IY`
/// and `UW` stay short.
pub open spec fn vowel_kana(symbol: Seq<char>) -> Seq<char> {
    let b = base_of(symbol);
    if b == "AA"@ || b == "AE"@ || b == "AH"@ {
        "ア"@
    } else if b == "AO"@ {
        "オー"@
    } else if b == "AW"@ {
        "アウ"@
    } else if b == "AY"@ {
        "アイ"@
    } else if b == "EH"@ {
        "エ"@
    } else if b == "ER"@ {
        "アー"@
    } else if b == "EY"@ {
        "エイ"@
    } else if b == "IH"@ {
        "イ"@
    } else if b == "IY"@ && unstressed(symbol) {
        "イ"@
    } else if b == "IY"@ {
        "イー"@
    } else if b == "OW"@ {
        "オウ"@
    } else if b == "OY"@ {
        "オイ"@
    } else if b == "UH"@ {
        "ウ"@
    } else if b == "UW"@ && unstressed(symbol) {
        "ウ"@
    } else if b == "UW"@ {
        "ウー"@
    } else {
        ""@
    }
}

/// The katakana of a vowel that has no consonant in front of it.
fn vowel(phone: &Phoneme) -> (r: &'static str)
    ensures
        r@ == vowel_kana(phone.symbol@),
{
    let b = phone.base();
    let zero = ends_with_zero(phone.symbol.as_str());
    if str_equals(b, "AA") || str_equals(b, "AE") || str_equals(b, "AH") {
        "ア"
    } else if str_equals(b, "AO") {
        "オー"
    } else if str_equals(b, "AW") {
        "アウ"
    } else if str_equals(b, "AY") {
        "アイ"
    } else if str_equals(b, "EH") {
        "エ"
    } else if str_equals(b, "ER") {
        "アー"
    } else if str_equals(b, "EY") {
        "エイ"
    } else if str_equals(b, "IH") {
        "イ"
    } else if str_equals(b, "IY") && zero {
        "イ"
    } else if str_equals(b, "IY") {
        "イー"
    } else if str_equals(b, "OW") {
        "オウ"
    } else if str_equals(b, "OY") {
        "オイ"
    } else if str_equals(b, "UH") {
        "ウ"
    } else if str_equals(b, "UW") && zero {
        "ウ"
    } else if str_equals(b, "UW") {
        "ウー"
    } else {
        ""
    }
}

/// The vowel column of the onset table: 0 = a, 1 = i, 2 = u, 3 = e, 4 = o.
pub open spec fn vowel_slot(b: Seq<char>) -> Option<int> {
    if b == "AA"@ || b == "AE"@ || b == "AH"@ || b == "AW"@ || b == "AY"@ {
        Some(0)
    } else if b == "IH"@ || b == "IY"@ {
        Some(1)
    } else if b == "UH"@ || b == "UW"@ {
        Some(2)
    } else if b == "EH"@ || b == "EY"@ {
        Some(3)
    } else if b == "ER"@ {
        Some(0)
    } else if b == "AO"@ || b == "OW"@ || b == "OY"@ {
        Some(4)
    } else {
        None
    }
}

fn vowel_slot_of(b: &str) -> (r: Option<usize>)
    ensures
        match r {
            Some(k) => vowel_slot(b@) == Some(k as int) && k < 5,
            None => vowel_slot(b@) is None,
        },
{
    if str_equals(b, "AA") || str_equals(b, "AE") || str_equals(b, "AH") || str_equals(b, "AW")
        || str_equals(b, "AY") {
        Some(0)
    } else if str_equals(b, "IH") || str_equals(b, "IY") {
        Some(1)
    } else if str_equals(b, "UH") || str_equals(b, "UW") {
        Some(2)
    } else if str_equals(b, "EH") || str_equals(b, "EY") {
        Some(3)
    } else if str_equals(b, "ER") {
        Some(0)
    } else if str_equals(b, "AO") || str_equals(b, "OW") || str_equals(b, "OY") {
        Some(4)
    } else {
        None
    }
}

/// What follows the onset syllable: the second half of a diphthong, or the
/// long mark of a long vowel.
pub open spec fn onset_suffix(symbol: Seq<char>) -> Seq<char> {
    let b = base_of(symbol);
    if b == "AW"@ {
        "ウ"@
    } else if b == "AY"@ || b == "EY"@ || b == "OY"@ {
        "イ"@
    } else if b == "OW"@ {
        "ウ"@
    } else if b == "IY"@ && !unstressed(symbol) {
        "ー"@
    } else if b == "UW"@ && !unstressed(symbol) {
        "ー"@
    } else if b == "AO"@ {
        "ー"@
    } else if b == "ER"@ {
        "ー"@
    } else {
        ""@
    }
}

fn onset_tail(phone: &Phoneme) -> (r: &'static str)
    ensures
        r@ == onset_suffix(phone.symbol@),
{
    let b = phone.base();
    let zero = ends_with_zero(phone.symbol.as_str());
    if str_equals(b, "AW") {
        "ウ"
    } else if str_equals(b, "AY") || str_equals(b, "EY") || str_equals(b, "OY") {
        "イ"
    } else if str_equals(b, "OW") {
        "ウ"
    } else if str_equals(b, "IY") && !zero {
        "ー"
    } else if str_equals(b, "UW") && !zero {
        "ー"
    } else if str_equals(b, "AO") {
        "ー"
    } else if str_equals(b, "ER") {
        "ー"
    } else {
        ""
    }
}

/// The syllable of one consonant and the vowel after it, or the message for
/// a vowel or consonant that has no table entry.
pub open spec fn onset_kana(consonant: Seq<char>, vowel_symbol: Seq<char>) -> Result<
    Seq<char>,
    Seq<char>,
> {
    match vowel_slot(base_of(vowel_symbol)) {
        None => Err("unsupported ARPAbet vowel: "@ + base_of(vowel_symbol)),
        Some(slot) => match onset_cell(consonant, slot) {
            None => Err("unsupported ARPAbet consonant: "@ + consonant),
            Some(kana) => Ok(kana + onset_suffix(vowel_symbol)),
        },
    }
}

/// Builds `prefix` followed by `detail` as a message.
fn message(prefix: &str, detail: &str) -> (r: String)
    ensures
        r@ == prefix@ + detail@,
{
    let mut m = chars_of(prefix);
    extend_str(&mut m, detail);
    string_from(&m)
}

/// The katakana syllable of one consonant and the vowel after it.
fn onset(consonant: &str, vowel_phone: &Phoneme) -> (r: Result<String, String>)
    ensures
        result_view(r) == onset_kana(consonant@, vowel_phone.symbol@),
{
    let b = vowel_phone.base();
    let slot = match vowel_slot_of(b) {
        Some(k) => k,
        None => {
            return Err(message("unsupported ARPAbet vowel: ", b));
        },
    };
    let kana = match onset_row_cell(consonant, slot) {
        Some(k) => k,
        None => {
            return Err(message("unsupported ARPAbet consonant: ", consonant));
        },
    };
    let mut out = chars_of(kana);
    extend_str(&mut out, onset_tail(vowel_phone));
    Ok(string_from(&out))
}

/// The column of the palatal table: 0 = ya, 1 = yu, 2 = yo.
pub open spec fn palatal_column(b: Seq<char>) -> Option<int> {
    if b == "AA"@ || b == "AE"@ || b == "AH"@ || b == "AW"@ || b == "AY"@ {
        Some(0)
    } else if b == "IH"@ || b == "IY"@ || b == "UH"@ || b == "UW"@ || b == "EH"@ || b == "ER"@
        || b == "EY"@ {
        Some(1)
    } else if b == "AO"@ || b == "OW"@ || b == "OY"@ {
        Some(2)
    } else {
        None
    }
}

fn palatal_column_of(b: &str) -> (r: Option<usize>)
    ensures
        match r {
            Some(k) => palatal_column(b@) == Some(k as int) && k < 3,
            None => palatal_column(b@) is None,
        },
{
    if str_equals(b, "AA") || str_equals(b, "AE") || str_equals(b, "AH") || str_equals(b, "AW")
        || str_equals(b, "AY") {
        Some(0)
    } else if str_equals(b, "IH") || str_equals(b, "IY") || str_equals(b, "UH") || str_equals(
        b,
        "UW",
    ) || str_equals(b, "EH") || str_equals(b, "ER") || str_equals(b, "EY") {
        Some(1)
    } else if str_equals(b, "AO") || str_equals(b, "OW") || str_equals(b, "OY") {
        Some(2)
    } else {
        None
    }
}

/// What follows a palatal syllable.
pub open spec fn palatal_suffix(symbol: Seq<char>) -> Seq<char> {
    let b = base_of(symbol);
    if b == "AW"@ {
        "ウ"@
    } else if b == "AY"@ || b == "EY"@ || b == "OY"@ {
        "イ"@
    } else if b == "OW"@ {
        "ウ"@
    } else if (b == "IY"@ || b == "UW"@) && !unstressed(symbol) {
        "ー"@
    } else if b == "AO"@ || b == "ER"@ {
        "ー"@
    } else {
        ""@
    }
}

fn palatal_tail(phone: &Phoneme) -> (r: &'static str)
    ensures
        r@ == palatal_suffix(phone.symbol@),
{
    let b = phone.base();
    let zero = ends_with_zero(phone.symbol.as_str());
    if str_equals(b, "AW") {
        "ウ"
    } else if str_equals(b, "AY") || str_equals(b, "EY") || str_equals(b, "OY") {
        "イ"
    } else if str_equals(b, "OW") {
        "ウ"
    } else if (str_equals(b, "IY") || str_equals(b, "UW")) && !zero {
        "ー"
    } else if str_equals(b, "AO") || str_equals(b, "ER") {
        "ー"
    } else {
        ""
    }
}

/// The syllable of a consonant, `Y` and the vowel after them, or the message
/// for a consonant or vowel that has no palatal table entry.
pub open spec fn palatal_kana(consonant: Seq<char>, vowel_symbol: Seq<char>) -> Result<
    Seq<char>,
    Seq<char>,
> {
    if palatal_cell(consonant, 0) is None {
        Err("unsupported palatal ARPAbet onset: "@ + consonant + " Y"@)
    } else {
        match palatal_column(base_of(vowel_symbol)) {
            None => Err("unsupported palatal ARPAbet vowel: "@ + base_of(vowel_symbol)),
            Some(column) => Ok(palatal_cell(consonant, column)->0 + palatal_suffix(vowel_symbol)),
        }
    }
}

/// The katakana syllable of a consonant, `Y` and the vowel after them.
fn palatal_onset(consonant: &str, vowel_phone: &Phoneme) -> (r: Result<String, String>)
    ensures
        result_view(r) == palatal_kana(consonant@, vowel_phone.symbol@),
{
    if palatal_row_cell(consonant, 0).is_none() {
        let mut m = chars_of("unsupported palatal ARPAbet onset: ");
        extend_str(&mut m, consonant);
        extend_str(&mut m, " Y");
        return Err(string_from(&m));
    }
    let b = vowel_phone.base();
    let column = match palatal_column_of(b) {
        Some(k) => k,
        None => {
            return Err(message("unsupported palatal ARPAbet vowel: ", b));
        },
    };
    let kana = match palatal_row_cell(consonant, column) {
        Some(k) => k,
        None => "",
    };
    let mut out = chars_of(kana);
    extend_str(&mut out, palatal_tail(vowel_phone));
    Ok(string_from(&out))
}

/// Whether an optional previous vowel is long or a diphthong.
pub open spec fn long_vowel(previous: Option<Seq<char>>) -> bool {
    match previous {
        Some(b) => b == "AO"@ || b == "AW"@ || b == "AY"@ || b == "ER"@ || b == "EY"@ || b
            == "IY"@ || b == "OW"@ || b == "OY"@ || b == "UW"@,
        None => false,
    }
}

/// Whether the vowel before a consonant is long or a diphthong.
fn is_long_vowel(vowel: Option<&str>) -> (r: bool)
    ensures
        r == long_vowel(opt_str(vowel)),
{
    match vowel {
        Some(b) => str_equals(b, "AO") || str_equals(b, "AW") || str_equals(b, "AY") || str_equals(
            b,
            "ER",
        ) || str_equals(b, "EY") || str_equals(b, "IY") || str_equals(b, "OW") || str_equals(
            b,
            "OY",
        ) || str_equals(b, "UW"),
        None => false,
    }
}

/// A consonant with no vowel after it, written with a small tsu, a moraic
/// n or a short vowel. `K`, `T` and `R` depend on the vowel before them;
/// `T` also on whether a consonant comes right before it.
pub open spec fn coda_kana(phone: Seq<char>, previous_vowel: Option<Seq<char>>, after_consonant: bool) -> Seq<char> {
    if phone == "B"@ {
        "ブ"@
    } else if phone == "CH"@ {
        "チ"@
    } else if phone == "D"@ || phone == "DH"@ {
        "ド"@
    } else if phone == "DX"@ {
        "ル"@
    } else if phone == "F"@ {
        "フ"@
    } else if phone == "G"@ {
        "グ"@
    } else if phone == "HH"@ {
        ""@
    } else if phone == "JH"@ {
        "ジ"@
    } else if phone == "K"@ && long_vowel(previous_vowel) {
        "ク"@
    } else if phone == "K"@ {
        "ック"@
    } else if phone == "L"@ {
        "ル"@
    } else if phone == "M"@ {
        "ム"@
    } else if phone == "N"@ {
        "ン"@
    } else if phone == "NG"@ {
        "ング"@
    } else if phone == "P"@ {
        "ップ"@
    } else if phone == "R"@ && (previous_vowel == Some("AO"@) || previous_vowel == Some("ER"@)) {
        ""@
    } else if phone == "R"@ && previous_vowel == Some("AA"@) {
        "ー"@
    } else if phone == "R"@ {
        "ア"@
    } else if phone == "S"@ {
        "ス"@
    } else if phone == "SH"@ {
        "シュ"@
    } else if phone == "T"@ && (after_consonant || long_vowel(previous_vowel)) {
        "ト"@
    } else if phone == "T"@ {
        "ット"@
    } else if phone == "TH"@ {
        "ス"@
    } else if phone == "V"@ {
        "ヴ"@
    } else if phone == "W"@ || phone == "Y"@ {
        ""@
    } else if phone == "Z"@ {
        "ズ"@
    } else if phone == "ZH"@ {
        "ジュ"@
    } else {
        ""@
    }
}

/// The katakana of a consonant that no vowel follows.
fn coda(phone: &str, previous_vowel: Option<&str>, previous_consonant: Option<&str>) -> (r:
    &'static str)
    ensures
        r@ == coda_kana(phone@, opt_str(previous_vowel), previous_consonant is Some),
{
    let long = is_long_vowel(previous_vowel);
    let (after_ao_er, after_aa) = match previous_vowel {
        Some(v) => (str_equals(v, "AO") || str_equals(v, "ER"), str_equals(v, "AA")),
        None => (false, false),
    };
    if str_equals(phone, "B") {
        "ブ"
    } else if str_equals(phone, "CH") {
        "チ"
    } else if str_equals(phone, "D") || str_equals(phone, "DH") {
        "ド"
    } else if str_equals(phone, "DX") {
        "ル"
    } else if str_equals(phone, "F") {
        "フ"
    } else if str_equals(phone, "G") {
        "グ"
    } else if str_equals(phone, "HH") {
        ""
    } else if str_equals(phone, "JH") {
        "ジ"
    } else if str_equals(phone, "K") && long {
        "ク"
    } else if str_equals(phone, "K") {
        "ック"
    } else if str_equals(phone, "L") {
        "ル"
    } else if str_equals(phone, "M") {
        "ム"
    } else if str_equals(phone, "N") {
        "ン"
    } else if str_equals(phone, "NG") {
        "ング"
    } else if str_equals(phone, "P") {
        "ップ"
    } else if str_equals(phone, "R") && after_ao_er {
        ""
    } else if str_equals(phone, "R") && after_aa {
        "ー"
    } else if str_equals(phone, "R") {
        "ア"
    } else if str_equals(phone, "S") {
        "ス"
    } else if str_equals(phone, "SH") {
        "シュ"
    } else if str_equals(phone, "T") && (previous_consonant.is_some() || long) {
        "ト"
    } else if str_equals(phone, "T") {
        "ット"
    } else if str_equals(phone, "TH") {
        "ス"
    } else if str_equals(phone, "V") {
        "ヴ"
    } else if str_equals(phone, "W") || str_equals(phone, "Y") {
        ""
    } else if str_equals(phone, "Z") {
        "ズ"
    } else if str_equals(phone, "ZH") {
        "ジュ"
    } else {
        ""
    }
}

/// A consonant in front of the last one of a run, given a short vowel so that
/// it can be sung (`S` of `SK` becomes ス); the others take their coda form.
pub open spec fn cluster_kana(phone: Seq<char>) -> Seq<char> {
    if phone == "B"@ {
        "ブ"@
    } else if phone == "D"@ {
        "ド"@
    } else if phone == "F"@ {
        "フ"@
    } else if phone == "G"@ {
        "グ"@
    } else if phone == "K"@ {
        "ク"@
    } else if phone == "P"@ {
        "プ"@
    } else if phone == "S"@ || phone == "SH"@ {
        "ス"@
    } else if phone == "T"@ || phone == "TH"@ {
        "ト"@
    } else if phone == "V"@ {
        "ヴ"@
    } else {
        coda_kana(phone, None, false)
    }
}

/// The katakana of a consonant at the front of a consonant cluster.
fn cluster_prefix(phone: &str) -> (r: &'static str)
    ensures
        r@ == cluster_kana(phone@),
{
    if str_equals(phone, "B") {
        "ブ"
    } else if str_equals(phone, "D") {
        "ド"
    } else if str_equals(phone, "F") {
        "フ"
    } else if str_equals(phone, "G") {
        "グ"
    } else if str_equals(phone, "K") {
        "ク"
    } else if str_equals(phone, "P") {
        "プ"
    } else if str_equals(phone, "S") || str_equals(phone, "SH") {
        "ス"
    } else if str_equals(phone, "T") || str_equals(phone, "TH") {
        "ト"
    } else if str_equals(phone, "V") {
        "ヴ"
    } else {
        coda(phone, None, None)
    }
}

/// Whether a consonant has a cluster form of its own.
pub open spec fn has_cluster_form(phone: Seq<char>) -> bool {
    phone == "B"@ || phone == "D"@ || phone == "F"@ || phone == "G"@ || phone == "K"@ || phone
        == "P"@ || phone == "S"@ || phone == "SH"@ || phone == "T"@ || phone == "TH"@ || phone
        == "V"@
}

/// A consonant before the last one of its run: its cluster form where it has
/// one, otherwise its coda form after the previous vowel.
pub open spec fn medial_kana(phone: Seq<char>, previous_vowel: Option<Seq<char>>) -> Seq<char> {
    if has_cluster_form(phone) {
        cluster_kana(phone)
    } else {
        coda_kana(phone, previous_vowel, false)
    }
}

/// The katakana of a consonant before the last one of its run.
fn medial_prefix(phone: &str, previous_vowel: Option<&str>) -> (r: &'static str)
    ensures
        r@ == medial_kana(phone@, opt_str(previous_vowel)),
{
    if str_equals(phone, "B") || str_equals(phone, "D") || str_equals(phone, "F") || str_equals(
        phone,
        "G",
    ) || str_equals(phone, "K") || str_equals(phone, "P") || str_equals(phone, "S") || str_equals(
        phone,
        "SH",
    ) || str_equals(phone, "T") || str_equals(phone, "TH") || str_equals(phone, "V") {
        cluster_prefix(phone)
    } else {
        coda(phone, previous_vowel, None)
    }
}

/// The index of the first vowel at or after `i`, or the length when there is
/// none.
pub open spec fn next_vowel(symbols: Seq<Seq<char>>, i: int) -> int
    decreases symbols.len() - i,
{
    if i >= symbols.len() {
        symbols.len() as int
    } else if is_vowel_symbol(symbols[i]) {
        i
    } else {
        next_vowel(symbols, i + 1)
    }
}

pub proof fn lemma_next_vowel(symbols: Seq<Seq<char>>, i: int)
    requires
        0 <= i <= symbols.len(),
    ensures
        i <= next_vowel(symbols, i) <= symbols.len(),
        next_vowel(symbols, i) < symbols.len() ==> is_vowel_symbol(symbols[next_vowel(symbols, i)]),
    decreases symbols.len() - i,
{
    if i < symbols.len() && !is_vowel_symbol(symbols[i]) {
        lemma_next_vowel(symbols, i + 1);
    }
}

/// The cluster forms of the consonants `start..end`, after `previous_vowel`.
pub open spec fn prefix_run(
    symbols: Seq<Seq<char>>,
    start: int,
    end: int,
    previous_vowel: Option<Seq<char>>,
) -> Seq<char>
    decreases end - start,
{
    if end <= start {
        Seq::empty()
    } else {
        prefix_run(symbols, start, end - 1, previous_vowel) + medial_kana(
            base_of(symbols[end - 1]),
            previous_vowel,
        )
    }
}

/// The coda forms of the consonants `start..end` that end a word; each but
/// the first comes after a consonant.
pub open spec fn coda_run(
    symbols: Seq<Seq<char>>,
    start: int,
    end: int,
    previous_vowel: Option<Seq<char>>,
) -> Seq<char>
    decreases end - start,
{
    if end <= start {
        Seq::empty()
    } else {
        coda_run(symbols, start, end - 1, previous_vowel) + coda_kana(
            base_of(symbols[end - 1]),
            previous_vowel,
            end - 1 > start,
        )
    }
}

/// The katakana of the phonemes from `i` on, `previous_vowel` being the base
/// of the last vowel before `i`. A vowel alone is [`vowel_kana`]. A
/// consonant run followed by a vowel gives the cluster forms of its leading
/// consonants, then one syllable of its last consonant (or, when the run
/// ends in `Y` after another consonant, of that consonant and `Y`) and the
/// vowel. A run that ends the word gives its coda forms. The first syllable
/// without a table entry fails the whole word.
pub open spec fn render_from(symbols: Seq<Seq<char>>, i: int, previous_vowel: Option<Seq<char>>) -> Result<
    Seq<char>,
    Seq<char>,
>
    decreases symbols.len() - i,
{
    if i < 0 || i >= symbols.len() {
        Ok(Seq::empty())
    } else if is_vowel_symbol(symbols[i]) {
        after_prefix(
            vowel_kana(symbols[i]),
            render_from(symbols, i + 1, Some(base_of(symbols[i]))),
        )
    } else {
        let j = next_vowel(symbols, i);
        proof {
            lemma_next_vowel(symbols, i);
        }
        if j >= symbols.len() {
            Ok(coda_run(symbols, i, symbols.len() as int, previous_vowel))
        } else {
            let palatal = j - i >= 2 && base_of(symbols[j - 1]) == "Y"@;
            let head_end = if palatal {
                j - 2
            } else {
                j - 1
            };
            let syllable = if palatal {
                palatal_kana(base_of(symbols[j - 2]), symbols[j])
            } else {
                onset_kana(base_of(symbols[j - 1]), symbols[j])
            };
            match syllable {
                Err(e) => Err(e),
                Ok(kana) => after_prefix(
                    prefix_run(symbols, i, head_end, previous_vowel) + kana,
                    render_from(symbols, j + 1, Some(base_of(symbols[j]))),
                ),
            }
        }
    }
}

/// `s` with every occurrence of `pattern` replaced by `replacement`,
/// scanning left to right without overlaps, as `str::replace` does.
pub open spec fn replace_all(s: Seq<char>, pattern: Seq<char>, replacement: Seq<char>) -> Seq<char>
    decreases s.len(),
{
    if pattern.len() == 0 || s.len() < pattern.len() {
        s
    } else if s.take(pattern.len() as int) == pattern {
        replacement + replace_all(s.skip(pattern.len() as int), pattern, replacement)
    } else {
        seq![s[0]] + replace_all(s.skip(1), pattern, replacement)
    }
}

/// The katakana of one word, with the unnatural ットス (as in `-ts`)
/// smoothed to ッツ.
pub open spec fn word_kana(symbols: Seq<Seq<char>>) -> Result<Seq<char>, Seq<char>> {
    match render_from(symbols, 0, None) {
        Ok(s) => Ok(replace_all(s, "ットス"@, "ッツ"@)),
        Err(e) => Err(e),
    }
}

/// Whether `pattern` occurs in `s` at `at`.
fn occurs_at(s: &Vec<char>, at: usize, pattern: &Vec<char>) -> (r: bool)
    requires
        at + pattern.len() <= s.len(),
    ensures
        r == (s@.skip(at as int).take(pattern.len() as int) == pattern@),
{
    let mut k: usize = 0;
    while k < pattern.len()
        invariant
            k <= pattern.len(),
            at + pattern.len() <= s.len(),
            forall|m: int| 0 <= m < k ==> s@[at + m] == pattern@[m],
        decreases pattern.len() - k,
    {
        if s[at + k] != pattern[k] {
            assert(s@.skip(at as int).take(pattern.len() as int)[k as int] != pattern@[k as int]);
            return false;
        }
        k = k + 1;
    }
    assert(s@.skip(at as int).take(pattern.len() as int) =~= pattern@);
    true
}

/// `s` with every occurrence of `pattern` replaced by `replacement`.
fn replace_chars(s: &Vec<char>, pattern: &str, replacement: &str) -> (r: Vec<char>)
    requires
        pattern@.len() > 0,
    ensures
        r@ == replace_all(s@, pattern@, replacement@),
{
    let pat = chars_of(pattern);
    let mut out: Vec<char> = Vec::new();
    let mut i: usize = 0;
    assert(s@.skip(0) == s@);
    assert(out@ + replace_all(s@, pat@, replacement@) == replace_all(s@, pat@, replacement@));
    while i < s.len()
        invariant
            i <= s.len(),
            pat@ == pattern@,
            pat@.len() > 0,
            out@ + replace_all(s@.skip(i as int), pat@, replacement@) == replace_all(s@, pat@, replacement@),
        decreases s.len() - i,
    {
        let ghost rest = s@.skip(i as int);
        if pat.len() <= s.len() - i && occurs_at(s, i, &pat) {
            assert(rest.skip(pat@.len() as int) == s@.skip(i + pat@.len()));
            extend_str(&mut out, replacement);
            i = i + pat.len();
            assert(out@ + replace_all(s@.skip(i as int), pat@, replacement@) == replace_all(s@, pat@, replacement@)) by {
                assert((out@.subrange(0, out@.len() - replacement@.len()) + replacement@) == out@);
            }
        } else {
            proof {
                assert(rest.skip(1) == s@.skip(i + 1));
                if rest.len() < pat@.len() {
                    assert(rest == seq![s@[i as int]] + rest.skip(1));
                    assert(replace_all(rest.skip(1), pat@, replacement@) == rest.skip(1));
                }
            }
            out.push(s[i]);
            i = i + 1;
        }
    }
    assert(s@.skip(s.len() as int) == Seq::<char>::empty());
    assert(out@ + Seq::<char>::empty() == out@);
    out
}

proof fn lemma_after_prefix_empty(r: Result<Seq<char>, Seq<char>>)
    ensures
        after_prefix(Seq::empty(), r) == r,
{
    if let Ok(t) = r {
        assert(Seq::<char>::empty() + t == t);
    }
}

proof fn lemma_after_prefix_assoc(a: Seq<char>, b: Seq<char>, r: Result<Seq<char>, Seq<char>>)
    ensures
        after_prefix(a, after_prefix(b, r)) == after_prefix(a + b, r),
{
    if let Ok(t) = r {
        assert(a + (b + t) == (a + b) + t);
    }
}

/// The katakana of one word's phonemes.
fn render_word(phones: &Vec<Phoneme>) -> (r: Result<String, String>)
    ensures
        result_view(r) == word_kana(symbols(phones@)),
{
    let ghost syms = symbols(phones@);
    let mut output: Vec<char> = Vec::new();
    let mut index: usize = 0;
    let mut previous_vowel: Option<&str> = None;
    proof {
        lemma_after_prefix_empty(render_from(syms, 0, None));
    }
    while index < phones.len()
        invariant
            index <= phones.len(),
            syms == symbols(phones@),
            render_from(syms, 0, None) == after_prefix(
                output@,
                render_from(syms, index as int, opt_str(previous_vowel)),
            ),
        decreases phones.len() - index,
    {
        let ghost out0 = output@;
        let ghost pv = opt_str(previous_vowel);
        if phones[index].is_vowel() {
            let v = vowel(&phones[index]);
            extend_str(&mut output, v);
            previous_vowel = Some(phones[index].base());
            index = index + 1;
            proof {
                lemma_after_prefix_assoc(
                    out0,
                    v@,
                    render_from(syms, index as int, opt_str(previous_vowel)),
                );
            }
        } else {
            let start = index;
            while index < phones.len() && !phones[index].is_vowel()
                invariant
                    start <= index <= phones.len(),
                    start < phones.len(),
                    syms == symbols(phones@),
                    next_vowel(syms, start as int) == next_vowel(syms, index as int),
                decreases phones.len() - index,
            {
                index = index + 1;
            }
            if index == phones.len() {
                let mut k = start;
                while k < phones.len()
                    invariant
                        start <= k <= phones.len(),
                        syms == symbols(phones@),
                        pv == opt_str(previous_vowel),
                        output@ == out0 + coda_run(syms, start as int, k as int, pv),
                    decreases phones.len() - k,
                {
                    let previous_consonant: Option<&str> = if k > start {
                        Some(phones[k - 1].base())
                    } else {
                        None
                    };
                    extend_str(&mut output, coda(phones[k].base(), previous_vowel, previous_consonant));
                    k = k + 1;
                }
                assert(output@ + Seq::<char>::empty() == output@);
            } else {
                let palatal = index - start >= 2 && str_equals(phones[index - 1].base(), "Y");
                let head_end = if palatal {
                    index - 2
                } else {
                    index - 1
                };
                let mut k = start;
                while k < head_end
                    invariant
                        start <= k <= head_end,
                        head_end < phones.len(),
                        syms == symbols(phones@),
                        pv == opt_str(previous_vowel),
                        output@ == out0 + prefix_run(syms, start as int, k as int, pv),
                    decreases head_end - k,
                {
                    extend_str(&mut output, medial_prefix(phones[k].base(), previous_vowel));
                    k = k + 1;
                }
                let syllable = if palatal {
                    palatal_onset(phones[index - 2].base(), &phones[index])
                } else {
                    onset(phones[index - 1].base(), &phones[index])
                };
                match syllable {
                    Err(e) => {
                        return Err(e);
                    },
                    Ok(kana) => {
                        let ghost prefix = prefix_run(syms, start as int, head_end as int, pv);
                        extend_str(&mut output, kana.as_str());
                        previous_vowel = Some(phones[index].base());
                        index = index + 1;
                        proof {
                            lemma_after_prefix_assoc(
                                out0,
                                prefix + kana@,
                                render_from(syms, index as int, opt_str(previous_vowel)),
                            );
                            assert(out0 + (prefix + kana@) == output@);
                        }
                    },
                }
            }
        }
    }
    proof {
        reveal_strlit("ットス");
    }
    let replaced = replace_chars(&output, "ットス", "ッツ");
    Ok(string_from(&replaced))
}

/// The separator of words in a phoneme sequence.
pub open spec fn word_boundary() -> spec_fn(Seq<char>) -> bool {
    |s: Seq<char>| s == "|"@
}

/// The words of a phoneme sequence: its maximal non-empty runs between
/// boundary markers.
pub open spec fn words_of(symbols: Seq<Seq<char>>) -> Seq<Seq<Seq<char>>> {
    runs(symbols, word_boundary())
}

/// The katakana of each word, or the message of the first word that fails.
pub open spec fn render_words(words: Seq<Seq<Seq<char>>>) -> Result<Seq<Seq<char>>, Seq<char>>
    decreases words.len(),
{
    if words.len() == 0 {
        Ok(Seq::empty())
    } else {
        match render_words(words.drop_last()) {
            Err(e) => Err(e),
            Ok(done) => match word_kana(words.last()) {
                Err(e) => Err(e),
                Ok(kana) => Ok(done.push(kana)),
            },
        }
    }
}

/// The pieces joined with single spaces.
pub open spec fn join_spaced(pieces: Seq<Seq<char>>) -> Seq<char>
    decreases pieces.len(),
{
    if pieces.len() == 0 {
        Seq::empty()
    } else if pieces.len() == 1 {
        pieces[0]
    } else {
        join_spaced(pieces.drop_last()) + seq![' '] + pieces.last()
    }
}

/// The katakana reading of a phoneme sequence: each word rendered, joined
/// with spaces; the first word that cannot be rendered fails the whole.
pub open spec fn katakana_of(symbols: Seq<Seq<char>>) -> Result<Seq<char>, Seq<char>> {
    match render_words(words_of(symbols)) {
        Ok(pieces) => Ok(join_spaced(pieces)),
        Err(e) => Err(e),
    }
}

proof fn lemma_render_words_err(words: Seq<Seq<Seq<char>>>, k: int)
    requires
        0 <= k <= words.len(),
        render_words(words.take(k)) is Err,
    ensures
        render_words(words) == render_words(words.take(k)),
    decreases words.len(),
{
    if words.len() > k {
        assert(words.drop_last().take(k) == words.take(k));
        lemma_render_words_err(words.drop_last(), k);
    } else {
        assert(words.take(k) == words);
    }
}

/// The symbols of each word.
pub open spec fn word_symbols(words: Seq<Vec<Phoneme>>) -> Seq<Seq<Seq<char>>> {
    words.map_values(|w: Vec<Phoneme>| symbols(w@))
}

/// Converts a phoneme sequence whose words are separated by `|` markers
/// into katakana, word by word, joined with half-width spaces.
pub fn from_phonemes(phonemes: &Vec<Phoneme>) -> (r: Result<String, String>)
    ensures
        result_view(r) == katakana_of(symbols(phonemes@)),
{
    let ghost syms = symbols(phonemes@);
    let mut words: Vec<Vec<Phoneme>> = Vec::new();
    let mut current: Vec<Phoneme> = Vec::new();
    let mut i: usize = 0;
    assert(syms.take(0) == Seq::<Seq<char>>::empty());
    assert(word_symbols(words@) == Seq::<Seq<Seq<char>>>::empty());
    assert(symbols(current@) == Seq::<Seq<char>>::empty());
    while i < phonemes.len()
        invariant
            i <= phonemes.len(),
            syms == symbols(phonemes@),
            runs_state(syms.take(i as int), word_boundary()) == (
                word_symbols(words@),
                symbols(current@),
            ),
        decreases phonemes.len() - i,
    {
        let ghost words0 = words@;
        let ghost current0 = current@;
        assert(syms.take(i + 1).drop_last() == syms.take(i as int));
        assert(syms.take(i + 1).last() == syms[i as int]);
        if phonemes[i].is_word_boundary() {
            if current.len() > 0 {
                words.push(current);
                current = Vec::new();
                assert(word_symbols(words@) == word_symbols(words0).push(symbols(current0)));
            }
            assert(symbols(current@) == Seq::<Seq<char>>::empty());
        } else {
            current.push(Phoneme::new(phonemes[i].symbol.as_str()));
            assert(symbols(current@) == symbols(current0).push(syms[i as int]));
        }
        i = i + 1;
    }
    assert(syms.take(phonemes.len() as int) == syms);
    if current.len() > 0 {
        let ghost words0 = words@;
        let ghost current0 = current@;
        words.push(current);
        assert(word_symbols(words@) == word_symbols(words0).push(symbols(current0)));
    }
    let ghost ws = word_symbols(words@);
    assert(ws == words_of(syms));
    let mut out: Vec<char> = Vec::new();
    let ghost mut pieces: Seq<Seq<char>> = Seq::empty();
    let mut k: usize = 0;
    assert(ws.take(0) == Seq::<Seq<Seq<char>>>::empty());
    while k < words.len()
        invariant
            k <= words.len(),
            ws == word_symbols(words@),
            ws == words_of(syms),
            syms == symbols(phonemes@),
            render_words(ws.take(k as int)) == Ok::<Seq<Seq<char>>, Seq<char>>(pieces),
            out@ == join_spaced(pieces),
            pieces.len() == k,
        decreases words.len() - k,
    {
        assert(ws.take(k + 1).drop_last() == ws.take(k as int));
        assert(ws.take(k + 1).last() == ws[k as int]);
        match render_word(&words[k]) {
            Err(e) => {
                proof {
                    lemma_render_words_err(ws, k + 1);
                }
                return Err(e);
            },
            Ok(w) => {
                let ghost out0 = out@;
                let ghost pieces0 = pieces;
                if k > 0 {
                    out.push(' ');
                }
                extend_str(&mut out, w.as_str());
                proof {
                    pieces = pieces.push(w@);
                    assert(pieces.drop_last() == pieces0);
                    if k == 0 {
                        assert(out@ == w@);
                    } else {
                        assert(out@ == out0 + seq![' '] + w@);
                    }
                }
                k = k + 1;
            },
        }
    }
    assert(ws.take(words.len() as int) == ws);
    Ok(string_from(&out))
}

/// The onset table: the syllable for `consonant` followed by a vowel of the
/// given slot (0 = a, 1 = i, 2 = u, 3 = e, 4 = o), or `None` for a
/// consonant without a row.
pub open spec fn onset_cell(consonant: Seq<char>, slot: int) -> Option<Seq<char>> {
    if consonant == "B"@ {
        Some(pick5(slot, "バ"@, "ビ"@, "ブ"@, "ベ"@, "ボ"@))
    } else if consonant == "CH"@ {
        Some(pick5(slot, "チャ"@, "チ"@, "チュ"@, "チェ"@, "チョ"@))
    } else if consonant == "D"@ {
        Some(pick5(slot, "ダ"@, "ディ"@, "ドゥ"@, "デ"@, "ド"@))
    } else if consonant == "DH"@ {
        Some(pick5(slot, "ザ"@, "ジ"@, "ズ"@, "ゼ"@, "ゾ"@))
    } else if consonant == "DX"@ {
        Some(pick5(slot, "ラ"@, "リ"@, "ル"@, "レ"@, "ロ"@))
    } else if consonant == "F"@ {
        Some(pick5(slot, "ファ"@, "フィ"@, "フ"@, "フェ"@, "フォ"@))
    } else if consonant == "G"@ {
        Some(pick5(slot, "ガ"@, "ギ"@, "グ"@, "ゲ"@, "ゴ"@))
    } else if consonant == "HH"@ {
        Some(pick5(slot, "ハ"@, "ヒ"@, "フ"@, "ヘ"@, "ホ"@))
    } else if consonant == "JH"@ {
        Some(pick5(slot, "ジャ"@, "ジ"@, "ジュ"@, "ジェ"@, "ジョ"@))
    } else if consonant == "K"@ {
        Some(pick5(slot, "カ"@, "キ"@, "ク"@, "ケ"@, "コ"@))
    } else if consonant == "L"@ || consonant == "R"@ {
        Some(pick5(slot, "ラ"@, "リ"@, "ル"@, "レ"@, "ロ"@))
    } else if consonant == "M"@ {
        Some(pick5(slot, "マ"@, "ミ"@, "ム"@, "メ"@, "モ"@))
    } else if consonant == "N"@ {
        Some(pick5(slot, "ナ"@, "ニ"@, "ヌ"@, "ネ"@, "ノ"@))
    } else if consonant == "NG"@ {
        Some(pick5(slot, "ンガ"@, "ンギ"@, "ング"@, "ンゲ"@, "ンゴ"@))
    } else if consonant == "P"@ {
        Some(pick5(slot, "パ"@, "ピ"@, "プ"@, "ペ"@, "ポ"@))
    } else if consonant == "S"@ {
        Some(pick5(slot, "サ"@, "シ"@, "ス"@, "セ"@, "ソ"@))
    } else if consonant == "SH"@ {
        Some(pick5(slot, "シャ"@, "シ"@, "シュ"@, "シェ"@, "ショ"@))
    } else if consonant == "T"@ {
        Some(pick5(slot, "タ"@, "ティ"@, "トゥ"@, "テ"@, "ト"@))
    } else if consonant == "TH"@ {
        Some(pick5(slot, "サ"@, "シ"@, "ス"@, "セ"@, "ソ"@))
    } else if consonant == "V"@ {
        Some(pick5(slot, "ヴァ"@, "ヴィ"@, "ヴ"@, "ヴェ"@, "ヴォ"@))
    } else if consonant == "W"@ {
        Some(pick5(slot, "ワ"@, "ウィ"@, "ウ"@, "ウェ"@, "ウォ"@))
    } else if consonant == "Y"@ {
        Some(pick5(slot, "ヤ"@, "イ"@, "ユ"@, "イェ"@, "ヨ"@))
    } else if consonant == "Z"@ {
        Some(pick5(slot, "ザ"@, "ジ"@, "ズ"@, "ゼ"@, "ゾ"@))
    } else if consonant == "ZH"@ {
        Some(pick5(slot, "ジャ"@, "ジ"@, "ジュ"@, "ジェ"@, "ジョ"@))
    } else {
        None
    }
}

fn onset_row_cell(consonant: &str, slot: usize) -> (r: Option<&'static str>)
    ensures
        opt_str(r) == onset_cell(consonant@, slot as int),
{
    if str_equals(consonant, "B") {
        Some(pick5_str(slot, "バ", "ビ", "ブ", "ベ", "ボ"))
    } else if str_equals(consonant, "CH") {
        Some(pick5_str(slot, "チャ", "チ", "チュ", "チェ", "チョ"))
    } else if str_equals(consonant, "D") {
        Some(pick5_str(slot, "ダ", "ディ", "ドゥ", "デ", "ド"))
    } else if str_equals(consonant, "DH") {
        Some(pick5_str(slot, "ザ", "ジ", "ズ", "ゼ", "ゾ"))
    } else if str_equals(consonant, "DX") {
        Some(pick5_str(slot, "ラ", "リ", "ル", "レ", "ロ"))
    } else if str_equals(consonant, "F") {
        Some(pick5_str(slot, "ファ", "フィ", "フ", "フェ", "フォ"))
    } else if str_equals(consonant, "G") {
        Some(pick5_str(slot, "ガ", "ギ", "グ", "ゲ", "ゴ"))
    } else if str_equals(consonant, "HH") {
        Some(pick5_str(slot, "ハ", "ヒ", "フ", "ヘ", "ホ"))
    } else if str_equals(consonant, "JH") {
        Some(pick5_str(slot, "ジャ", "ジ", "ジュ", "ジェ", "ジョ"))
    } else if str_equals(consonant, "K") {
        Some(pick5_str(slot, "カ", "キ", "ク", "ケ", "コ"))
    } else if str_equals(consonant, "L") || str_equals(consonant, "R") {
        Some(pick5_str(slot, "ラ", "リ", "ル", "レ", "ロ"))
    } else if str_equals(consonant, "M") {
        Some(pick5_str(slot, "マ", "ミ", "ム", "メ", "モ"))
    } else if str_equals(consonant, "N") {
        Some(pick5_str(slot, "ナ", "ニ", "ヌ", "ネ", "ノ"))
    } else if str_equals(consonant, "NG") {
        Some(pick5_str(slot, "ンガ", "ンギ", "ング", "ンゲ", "ンゴ"))
    } else if str_equals(consonant, "P") {
        Some(pick5_str(slot, "パ", "ピ", "プ", "ペ", "ポ"))
    } else if str_equals(consonant, "S") {
        Some(pick5_str(slot, "サ", "シ", "ス", "セ", "ソ"))
    } else if str_equals(consonant, "SH") {
        Some(pick5_str(slot, "シャ", "シ", "シュ", "シェ", "ショ"))
    } else if str_equals(consonant, "T") {
        Some(pick5_str(slot, "タ", "ティ", "トゥ", "テ", "ト"))
    } else if str_equals(consonant, "TH") {
        Some(pick5_str(slot, "サ", "シ", "ス", "セ", "ソ"))
    } else if str_equals(consonant, "V") {
        Some(pick5_str(slot, "ヴァ", "ヴィ", "ヴ", "ヴェ", "ヴォ"))
    } else if str_equals(consonant, "W") {
        Some(pick5_str(slot, "ワ", "ウィ", "ウ", "ウェ", "ウォ"))
    } else if str_equals(consonant, "Y") {
        Some(pick5_str(slot, "ヤ", "イ", "ユ", "イェ", "ヨ"))
    } else if str_equals(consonant, "Z") {
        Some(pick5_str(slot, "ザ", "ジ", "ズ", "ゼ", "ゾ"))
    } else if str_equals(consonant, "ZH") {
        Some(pick5_str(slot, "ジャ", "ジ", "ジュ", "ジェ", "ジョ"))
    } else {
        None
    }
}

/// The palatal table: the syllable for `consonant` + `Y` followed by a vowel
/// of the given column (0 = ya, 1 = yu, 2 = yo), or `None`.
pub open spec fn palatal_cell(consonant: Seq<char>, column: int) -> Option<Seq<char>> {
    if consonant == "B"@ {
        Some(pick3(column, "ビャ"@, "ビュ"@, "ビョ"@))
    } else if consonant == "D"@ {
        Some(pick3(column, "ヂャ"@, "ヂュ"@, "ヂョ"@))
    } else if consonant == "F"@ {
        Some(pick3(column, "フャ"@, "フュ"@, "フョ"@))
    } else if consonant == "G"@ {
        Some(pick3(column, "ギャ"@, "ギュ"@, "ギョ"@))
    } else if consonant == "K"@ {
        Some(pick3(column, "キャ"@, "キュ"@, "キョ"@))
    } else if consonant == "M"@ {
        Some(pick3(column, "ミャ"@, "ミュ"@, "ミョ"@))
    } else if consonant == "N"@ {
        Some(pick3(column, "ニャ"@, "ニュ"@, "ニョ"@))
    } else if consonant == "P"@ {
        Some(pick3(column, "ピャ"@, "ピュ"@, "ピョ"@))
    } else if consonant == "R"@ {
        Some(pick3(column, "リャ"@, "リュ"@, "リョ"@))
    } else if consonant == "S"@ {
        Some(pick3(column, "シャ"@, "シュ"@, "ショ"@))
    } else if consonant == "T"@ {
        Some(pick3(column, "チャ"@, "チュ"@, "チョ"@))
    } else if consonant == "V"@ {
        Some(pick3(column, "ヴャ"@, "ヴュ"@, "ヴョ"@))
    } else if consonant == "Z"@ {
        Some(pick3(column, "ジャ"@, "ジュ"@, "ジョ"@))
    } else {
        None
    }
}

fn palatal_row_cell(consonant: &str, column: usize) -> (r: Option<&'static str>)
    ensures
        opt_str(r) == palatal_cell(consonant@, column as int),
{
    if str_equals(consonant, "B") {
        Some(pick3_str(column, "ビャ", "ビュ", "ビョ"))
    } else if str_equals(consonant, "D") {
        Some(pick3_str(column, "ヂャ", "ヂュ", "ヂョ"))
    } else if str_equals(consonant, "F") {
        Some(pick3_str(column, "フャ", "フュ", "フョ"))
    } else if str_equals(consonant, "G") {
        Some(pick3_str(column, "ギャ", "ギュ", "ギョ"))
    } else if str_equals(consonant, "K") {
        Some(pick3_str(column, "キャ", "キュ", "キョ"))
    } else if str_equals(consonant, "M") {
        Some(pick3_str(column, "ミャ", "ミュ", "ミョ"))
    } else if str_equals(consonant, "N") {
        Some(pick3_str(column, "ニャ", "ニュ", "ニョ"))
    } else if str_equals(consonant, "P") {
        Some(pick3_str(column, "ピャ", "ピュ", "ピョ"))
    } else if str_equals(consonant, "R") {
        Some(pick3_str(column, "リャ", "リュ", "リョ"))
    } else if str_equals(consonant, "S") {
        Some(pick3_str(column, "シャ", "シュ", "ショ"))
    } else if str_equals(consonant, "T") {
        Some(pick3_str(column, "チャ", "チュ", "チョ"))
    } else if str_equals(consonant, "V") {
        Some(pick3_str(column, "ヴャ", "ヴュ", "ヴョ"))
    } else if str_equals(consonant, "Z") {
        Some(pick3_str(column, "ジャ", "ジュ", "ジョ"))
    } else {
        None
    }
}

/// The one-character text whose character has code point `code`.
pub open spec fn kana_at(code: int) -> Seq<char> {
    seq![code as char]
}

proof fn lemma_consonant_names()
    ensures
        "B"@ == seq!['B'],
        "B"@.len() == 1,
        "CH"@ == seq!['C', 'H'],
        "CH"@.len() == 2,
        "D"@ == seq!['D'],
        "D"@.len() == 1,
        "DH"@ == seq!['D', 'H'],
        "DH"@.len() == 2,
        "DX"@ == seq!['D', 'X'],
        "DX"@.len() == 2,
        "F"@ == seq!['F'],
        "F"@.len() == 1,
        "G"@ == seq!['G'],
        "G"@.len() == 1,
        "HH"@ == seq!['H', 'H'],
        "HH"@.len() == 2,
        "JH"@ == seq!['J', 'H'],
        "JH"@.len() == 2,
        "K"@ == seq!['K'],
        "K"@.len() == 1,
        "L"@ == seq!['L'],
        "L"@.len() == 1,
        "R"@ == seq!['R'],
        "R"@.len() == 1,
        "M"@ == seq!['M'],
        "M"@.len() == 1,
        "N"@ == seq!['N'],
        "N"@.len() == 1,
        "NG"@ == seq!['N', 'G'],
        "NG"@.len() == 2,
        "P"@ == seq!['P'],
        "P"@.len() == 1,
        "S"@ == seq!['S'],
        "S"@.len() == 1,
        "SH"@ == seq!['S', 'H'],
        "SH"@.len() == 2,
        "T"@ == seq!['T'],
        "T"@.len() == 1,
        "TH"@ == seq!['T', 'H'],
        "TH"@.len() == 2,
        "V"@ == seq!['V'],
        "V"@.len() == 1,
        "W"@ == seq!['W'],
        "W"@.len() == 1,
        "Y"@ == seq!['Y'],
        "Y"@.len() == 1,
        "Z"@ == seq!['Z'],
        "Z"@.len() == 1,
        "ZH"@ == seq!['Z', 'H'],
        "ZH"@.len() == 2,
{
    reveal_strlit("B");
    reveal_strlit("CH");
    reveal_strlit("D");
    reveal_strlit("DH");
    reveal_strlit("DX");
    reveal_strlit("F");
    reveal_strlit("G");
    reveal_strlit("HH");
    reveal_strlit("JH");
    reveal_strlit("K");
    reveal_strlit("L");
    reveal_strlit("R");
    reveal_strlit("M");
    reveal_strlit("N");
    reveal_strlit("NG");
    reveal_strlit("P");
    reveal_strlit("S");
    reveal_strlit("SH");
    reveal_strlit("T");
    reveal_strlit("TH");
    reveal_strlit("V");
    reveal_strlit("W");
    reveal_strlit("Y");
    reveal_strlit("Z");
    reveal_strlit("ZH");
}

proof fn lemma_row_k(slot: int)
    requires
        0 <= slot < 5,
    ensures
        onset_cell("K"@, slot) == Some(kana_at(0x30ab + 2 * slot)),
{
    lemma_consonant_names();
    assert("K"@[0] != "B"@[0]);
    assert("K"@[0] != "D"@[0]);
    assert("K"@[0] != "F"@[0]);
    assert("K"@[0] != "G"@[0]);
    reveal_strlit("カ");
    reveal_strlit("キ");
    reveal_strlit("ク");
    reveal_strlit("ケ");
    reveal_strlit("コ");
}

proof fn lemma_row_g(slot: int)
    requires
        0 <= slot < 5,
    ensures
        onset_cell("G"@, slot) == Some(kana_at(0x30ac + 2 * slot)),
{
    lemma_consonant_names();
    assert("G"@[0] != "B"@[0]);
    assert("G"@[0] != "D"@[0]);
    assert("G"@[0] != "F"@[0]);
    reveal_strlit("ガ");
    reveal_strlit("ギ");
    reveal_strlit("グ");
    reveal_strlit("ゲ");
    reveal_strlit("ゴ");
}

proof fn lemma_row_s(slot: int)
    requires
        0 <= slot < 5,
    ensures
        onset_cell("S"@, slot) == Some(kana_at(0x30b5 + 2 * slot)),
{
    lemma_consonant_names();
    assert("S"@[0] != "B"@[0]);
    assert("S"@[0] != "D"@[0]);
    assert("S"@[0] != "F"@[0]);
    assert("S"@[0] != "G"@[0]);
    assert("S"@[0] != "K"@[0]);
    assert("S"@[0] != "L"@[0]);
    assert("S"@[0] != "R"@[0]);
    assert("S"@[0] != "M"@[0]);
    assert("S"@[0] != "N"@[0]);
    assert("S"@[0] != "P"@[0]);
    reveal_strlit("サ");
    reveal_strlit("シ");
    reveal_strlit("ス");
    reveal_strlit("セ");
    reveal_strlit("ソ");
}

proof fn lemma_row_th(slot: int)
    requires
        0 <= slot < 5,
    ensures
        onset_cell("TH"@, slot) == Some(kana_at(0x30b5 + 2 * slot)),
{
    lemma_consonant_names();
    assert("TH"@[0] != "CH"@[0]);
    assert("TH"@[0] != "DH"@[0]);
    assert("TH"@[0] != "DX"@[0]);
    assert("TH"@[0] != "HH"@[0]);
    assert("TH"@[0] != "JH"@[0]);
    assert("TH"@[0] != "NG"@[0]);
    assert("TH"@[0] != "SH"@[0]);
    reveal_strlit("サ");
    reveal_strlit("シ");
    reveal_strlit("ス");
    reveal_strlit("セ");
    reveal_strlit("ソ");
}

proof fn lemma_row_z(slot: int)
    requires
        0 <= slot < 5,
    ensures
        onset_cell("Z"@, slot) == Some(kana_at(0x30b6 + 2 * slot)),
{
    lemma_consonant_names();
    assert("Z"@[0] != "B"@[0]);
    assert("Z"@[0] != "D"@[0]);
    assert("Z"@[0] != "F"@[0]);
    assert("Z"@[0] != "G"@[0]);
    assert("Z"@[0] != "K"@[0]);
    assert("Z"@[0] != "L"@[0]);
    assert("Z"@[0] != "R"@[0]);
    assert("Z"@[0] != "M"@[0]);
    assert("Z"@[0] != "N"@[0]);
    assert("Z"@[0] != "P"@[0]);
    assert("Z"@[0] != "S"@[0]);
    assert("Z"@[0] != "T"@[0]);
    assert("Z"@[0] != "V"@[0]);
    assert("Z"@[0] != "W"@[0]);
    assert("Z"@[0] != "Y"@[0]);
    reveal_strlit("ザ");
    reveal_strlit("ジ");
    reveal_strlit("ズ");
    reveal_strlit("ゼ");
    reveal_strlit("ゾ");
}

proof fn lemma_row_dh(slot: int)
    requires
        0 <= slot < 5,
    ensures
        onset_cell("DH"@, slot) == Some(kana_at(0x30b6 + 2 * slot)),
{
    lemma_consonant_names();
    assert("DH"@[0] != "CH"@[0]);
    reveal_strlit("ザ");
    reveal_strlit("ジ");
    reveal_strlit("ズ");
    reveal_strlit("ゼ");
    reveal_strlit("ゾ");
}

proof fn lemma_row_n(slot: int)
    requires
        0 <= slot < 5,
    ensures
        onset_cell("N"@, slot) == Some(kana_at(0x30ca + 1 * slot)),
{
    lemma_consonant_names();
    assert("N"@[0] != "B"@[0]);
    assert("N"@[0] != "D"@[0]);
    assert("N"@[0] != "F"@[0]);
    assert("N"@[0] != "G"@[0]);
    assert("N"@[0] != "K"@[0]);
    assert("N"@[0] != "L"@[0]);
    assert("N"@[0] != "R"@[0]);
    assert("N"@[0] != "M"@[0]);
    reveal_strlit("ナ");
    reveal_strlit("ニ");
    reveal_strlit("ヌ");
    reveal_strlit("ネ");
    reveal_strlit("ノ");
}

proof fn lemma_row_hh(slot: int)
    requires
        0 <= slot < 5,
    ensures
        onset_cell("HH"@, slot) == Some(kana_at(0x30cf + 3 * slot)),
{
    lemma_consonant_names();
    assert("HH"@[0] != "CH"@[0]);
    assert("HH"@[0] != "DH"@[0]);
    assert("HH"@[0] != "DX"@[0]);
    reveal_strlit("ハ");
    reveal_strlit("ヒ");
    reveal_strlit("フ");
    reveal_strlit("ヘ");
    reveal_strlit("ホ");
}

proof fn lemma_row_b(slot: int)
    requires
        0 <= slot < 5,
    ensures
        onset_cell("B"@, slot) == Some(kana_at(0x30d0 + 3 * slot)),
{
    lemma_consonant_names();
    reveal_strlit("バ");
    reveal_strlit("ビ");
    reveal_strlit("ブ");
    reveal_strlit("ベ");
    reveal_strlit("ボ");
}

proof fn lemma_row_p(slot: int)
    requires
        0 <= slot < 5,
    ensures
        onset_cell("P"@, slot) == Some(kana_at(0x30d1 + 3 * slot)),
{
    lemma_consonant_names();
    assert("P"@[0] != "B"@[0]);
    assert("P"@[0] != "D"@[0]);
    assert("P"@[0] != "F"@[0]);
    assert("P"@[0] != "G"@[0]);
    assert("P"@[0] != "K"@[0]);
    assert("P"@[0] != "L"@[0]);
    assert("P"@[0] != "R"@[0]);
    assert("P"@[0] != "M"@[0]);
    assert("P"@[0] != "N"@[0]);
    reveal_strlit("パ");
    reveal_strlit("ピ");
    reveal_strlit("プ");
    reveal_strlit("ペ");
    reveal_strlit("ポ");
}

proof fn lemma_row_m(slot: int)
    requires
        0 <= slot < 5,
    ensures
        onset_cell("M"@, slot) == Some(kana_at(0x30de + 1 * slot)),
{
    lemma_consonant_names();
    assert("M"@[0] != "B"@[0]);
    assert("M"@[0] != "D"@[0]);
    assert("M"@[0] != "F"@[0]);
    assert("M"@[0] != "G"@[0]);
    assert("M"@[0] != "K"@[0]);
    assert("M"@[0] != "L"@[0]);
    assert("M"@[0] != "R"@[0]);
    reveal_strlit("マ");
    reveal_strlit("ミ");
    reveal_strlit("ム");
    reveal_strlit("メ");
    reveal_strlit("モ");
}

proof fn lemma_row_l(slot: int)
    requires
        0 <= slot < 5,
    ensures
        onset_cell("L"@, slot) == Some(kana_at(0x30e9 + 1 * slot)),
{
    lemma_consonant_names();
    assert("L"@[0] != "B"@[0]);
    assert("L"@[0] != "D"@[0]);
    assert("L"@[0] != "F"@[0]);
    assert("L"@[0] != "G"@[0]);
    assert("L"@[0] != "K"@[0]);
    reveal_strlit("ラ");
    reveal_strlit("リ");
    reveal_strlit("ル");
    reveal_strlit("レ");
    reveal_strlit("ロ");
}

proof fn lemma_row_r(slot: int)
    requires
        0 <= slot < 5,
    ensures
        onset_cell("R"@, slot) == Some(kana_at(0x30e9 + 1 * slot)),
{
    lemma_consonant_names();
    assert("R"@[0] != "B"@[0]);
    assert("R"@[0] != "D"@[0]);
    assert("R"@[0] != "F"@[0]);
    assert("R"@[0] != "G"@[0]);
    assert("R"@[0] != "K"@[0]);
    assert("R"@[0] != "L"@[0]);
    reveal_strlit("ラ");
    reveal_strlit("リ");
    reveal_strlit("ル");
    reveal_strlit("レ");
    reveal_strlit("ロ");
}

proof fn lemma_row_dx(slot: int)
    requires
        0 <= slot < 5,
    ensures
        onset_cell("DX"@, slot) == Some(kana_at(0x30e9 + 1 * slot)),
{
    lemma_consonant_names();
    assert("DX"@[0] != "CH"@[0]);
    assert("DX"@[1] != "DH"@[1]);
    reveal_strlit("ラ");
    reveal_strlit("リ");
    reveal_strlit("ル");
    reveal_strlit("レ");
    reveal_strlit("ロ");
}

/// The plain onset rows are rows of the katakana syllabary, read in the
/// vowel order a, i, u, e, o: column `slot` of each row is the kana whose
/// code point is the row's first plus `slot` times the row's spacing in
/// Unicode (one for the N, M and R rows; two for the K, G, S and Z rows,
/// whose voiced kana sit between them; three for the H, B and P rows).
/// TH is sung as S, DH as Z, and L and the flap DX as R.
pub proof fn plain_onset_rows_follow_the_syllabary(slot: int)
    requires
        0 <= slot < 5,
    ensures
        onset_cell("K"@, slot) == Some(kana_at(0x30ab + 2 * slot)),
        onset_cell("G"@, slot) == Some(kana_at(0x30ac + 2 * slot)),
        onset_cell("S"@, slot) == Some(kana_at(0x30b5 + 2 * slot)),
        onset_cell("TH"@, slot) == Some(kana_at(0x30b5 + 2 * slot)),
        onset_cell("Z"@, slot) == Some(kana_at(0x30b6 + 2 * slot)),
        onset_cell("DH"@, slot) == Some(kana_at(0x30b6 + 2 * slot)),
        onset_cell("N"@, slot) == Some(kana_at(0x30ca + 1 * slot)),
        onset_cell("HH"@, slot) == Some(kana_at(0x30cf + 3 * slot)),
        onset_cell("B"@, slot) == Some(kana_at(0x30d0 + 3 * slot)),
        onset_cell("P"@, slot) == Some(kana_at(0x30d1 + 3 * slot)),
        onset_cell("M"@, slot) == Some(kana_at(0x30de + 1 * slot)),
        onset_cell("L"@, slot) == Some(kana_at(0x30e9 + 1 * slot)),
        onset_cell("R"@, slot) == Some(kana_at(0x30e9 + 1 * slot)),
        onset_cell("DX"@, slot) == Some(kana_at(0x30e9 + 1 * slot)),
{
    lemma_row_k(slot);
    lemma_row_g(slot);
    lemma_row_s(slot);
    lemma_row_th(slot);
    lemma_row_z(slot);
    lemma_row_dh(slot);
    lemma_row_n(slot);
    lemma_row_hh(slot);
    lemma_row_b(slot);
    lemma_row_p(slot);
    lemma_row_m(slot);
    lemma_row_l(slot);
    lemma_row_r(slot);
    lemma_row_dx(slot);
}

proof fn lemma_compound_row_ch()
    ensures
        onset_cell("CH"@, 0) == Some(seq!['チ', 'ャ']),
        onset_cell("CH"@, 1) == Some(seq!['チ']),
        onset_cell("CH"@, 2) == Some(seq!['チ', 'ュ']),
        onset_cell("CH"@, 3) == Some(seq!['チ', 'ェ']),
        onset_cell("CH"@, 4) == Some(seq!['チ', 'ョ']),
{
    lemma_consonant_names();
    reveal_strlit("チャ");
    reveal_strlit("チ");
    reveal_strlit("チュ");
    reveal_strlit("チェ");
    reveal_strlit("チョ");
}

proof fn lemma_compound_row_d()
    ensures
        onset_cell("D"@, 0) == Some(seq!['ダ']),
        onset_cell("D"@, 1) == Some(seq!['デ', 'ィ']),
        onset_cell("D"@, 2) == Some(seq!['ド', 'ゥ']),
        onset_cell("D"@, 3) == Some(seq!['デ']),
        onset_cell("D"@, 4) == Some(seq!['ド']),
{
    lemma_consonant_names();
    assert("D"@[0] != "B"@[0]);
    reveal_strlit("ダ");
    reveal_strlit("ディ");
    reveal_strlit("ドゥ");
    reveal_strlit("デ");
    reveal_strlit("ド");
}

proof fn lemma_compound_row_f()
    ensures
        onset_cell("F"@, 0) == Some(seq!['フ', 'ァ']),
        onset_cell("F"@, 1) == Some(seq!['フ', 'ィ']),
        onset_cell("F"@, 2) == Some(seq!['フ']),
        onset_cell("F"@, 3) == Some(seq!['フ', 'ェ']),
        onset_cell("F"@, 4) == Some(seq!['フ', 'ォ']),
{
    lemma_consonant_names();
    assert("F"@[0] != "B"@[0]);
    assert("F"@[0] != "D"@[0]);
    reveal_strlit("ファ");
    reveal_strlit("フィ");
    reveal_strlit("フ");
    reveal_strlit("フェ");
    reveal_strlit("フォ");
}

proof fn lemma_compound_row_jh()
    ensures
        onset_cell("JH"@, 0) == Some(seq!['ジ', 'ャ']),
        onset_cell("JH"@, 1) == Some(seq!['ジ']),
        onset_cell("JH"@, 2) == Some(seq!['ジ', 'ュ']),
        onset_cell("JH"@, 3) == Some(seq!['ジ', 'ェ']),
        onset_cell("JH"@, 4) == Some(seq!['ジ', 'ョ']),
{
    lemma_consonant_names();
    assert("JH"@[0] != "CH"@[0]);
    assert("JH"@[0] != "DH"@[0]);
    assert("JH"@[0] != "DX"@[0]);
    assert("JH"@[0] != "HH"@[0]);
    reveal_strlit("ジャ");
    reveal_strlit("ジ");
    reveal_strlit("ジュ");
    reveal_strlit("ジェ");
    reveal_strlit("ジョ");
}

proof fn lemma_compound_row_ng()
    ensures
        onset_cell("NG"@, 0) == Some(seq!['ン', 'ガ']),
        onset_cell("NG"@, 1) == Some(seq!['ン', 'ギ']),
        onset_cell("NG"@, 2) == Some(seq!['ン', 'グ']),
        onset_cell("NG"@, 3) == Some(seq!['ン', 'ゲ']),
        onset_cell("NG"@, 4) == Some(seq!['ン', 'ゴ']),
{
    lemma_consonant_names();
    assert("NG"@[0] != "CH"@[0]);
    assert("NG"@[0] != "DH"@[0]);
    assert("NG"@[0] != "DX"@[0]);
    assert("NG"@[0] != "HH"@[0]);
    assert("NG"@[0] != "JH"@[0]);
    reveal_strlit("ンガ");
    reveal_strlit("ンギ");
    reveal_strlit("ング");
    reveal_strlit("ンゲ");
    reveal_strlit("ンゴ");
}

proof fn lemma_compound_row_sh()
    ensures
        onset_cell("SH"@, 0) == Some(seq!['シ', 'ャ']),
        onset_cell("SH"@, 1) == Some(seq!['シ']),
        onset_cell("SH"@, 2) == Some(seq!['シ', 'ュ']),
        onset_cell("SH"@, 3) == Some(seq!['シ', 'ェ']),
        onset_cell("SH"@, 4) == Some(seq!['シ', 'ョ']),
{
    lemma_consonant_names();
    assert("SH"@[0] != "CH"@[0]);
    assert("SH"@[0] != "DH"@[0]);
    assert("SH"@[0] != "DX"@[0]);
    assert("SH"@[0] != "HH"@[0]);
    assert("SH"@[0] != "JH"@[0]);
    assert("SH"@[0] != "NG"@[0]);
    reveal_strlit("シャ");
    reveal_strlit("シ");
    reveal_strlit("シュ");
    reveal_strlit("シェ");
    reveal_strlit("ショ");
}

proof fn lemma_compound_row_t()
    ensures
        onset_cell("T"@, 0) == Some(seq!['タ']),
        onset_cell("T"@, 1) == Some(seq!['テ', 'ィ']),
        onset_cell("T"@, 2) == Some(seq!['ト', 'ゥ']),
        onset_cell("T"@, 3) == Some(seq!['テ']),
        onset_cell("T"@, 4) == Some(seq!['ト']),
{
    lemma_consonant_names();
    assert("T"@[0] != "B"@[0]);
    assert("T"@[0] != "D"@[0]);
    assert("T"@[0] != "F"@[0]);
    assert("T"@[0] != "G"@[0]);
    assert("T"@[0] != "K"@[0]);
    assert("T"@[0] != "L"@[0]);
    assert("T"@[0] != "R"@[0]);
    assert("T"@[0] != "M"@[0]);
    assert("T"@[0] != "N"@[0]);
    assert("T"@[0] != "P"@[0]);
    assert("T"@[0] != "S"@[0]);
    reveal_strlit("タ");
    reveal_strlit("ティ");
    reveal_strlit("トゥ");
    reveal_strlit("テ");
    reveal_strlit("ト");
}

proof fn lemma_compound_row_v()
    ensures
        onset_cell("V"@, 0) == Some(seq!['ヴ', 'ァ']),
        onset_cell("V"@, 1) == Some(seq!['ヴ', 'ィ']),
        onset_cell("V"@, 2) == Some(seq!['ヴ']),
        onset_cell("V"@, 3) == Some(seq!['ヴ', 'ェ']),
        onset_cell("V"@, 4) == Some(seq!['ヴ', 'ォ']),
{
    lemma_consonant_names();
    assert("V"@[0] != "B"@[0]);
    assert("V"@[0] != "D"@[0]);
    assert("V"@[0] != "F"@[0]);
    assert("V"@[0] != "G"@[0]);
    assert("V"@[0] != "K"@[0]);
    assert("V"@[0] != "L"@[0]);
    assert("V"@[0] != "R"@[0]);
    assert("V"@[0] != "M"@[0]);
    assert("V"@[0] != "N"@[0]);
    assert("V"@[0] != "P"@[0]);
    assert("V"@[0] != "S"@[0]);
    assert("V"@[0] != "T"@[0]);
    reveal_strlit("ヴァ");
    reveal_strlit("ヴィ");
    reveal_strlit("ヴ");
    reveal_strlit("ヴェ");
    reveal_strlit("ヴォ");
}

proof fn lemma_compound_row_w()
    ensures
        onset_cell("W"@, 0) == Some(seq!['ワ']),
        onset_cell("W"@, 1) == Some(seq!['ウ', 'ィ']),
        onset_cell("W"@, 2) == Some(seq!['ウ']),
        onset_cell("W"@, 3) == Some(seq!['ウ', 'ェ']),
        onset_cell("W"@, 4) == Some(seq!['ウ', 'ォ']),
{
    lemma_consonant_names();
    assert("W"@[0] != "B"@[0]);
    assert("W"@[0] != "D"@[0]);
    assert("W"@[0] != "F"@[0]);
    assert("W"@[0] != "G"@[0]);
    assert("W"@[0] != "K"@[0]);
    assert("W"@[0] != "L"@[0]);
    assert("W"@[0] != "R"@[0]);
    assert("W"@[0] != "M"@[0]);
    assert("W"@[0] != "N"@[0]);
    assert("W"@[0] != "P"@[0]);
    assert("W"@[0] != "S"@[0]);
    assert("W"@[0] != "T"@[0]);
    assert("W"@[0] != "V"@[0]);
    reveal_strlit("ワ");
    reveal_strlit("ウィ");
    reveal_strlit("ウ");
    reveal_strlit("ウェ");
    reveal_strlit("ウォ");
}

proof fn lemma_compound_row_y()
    ensures
        onset_cell("Y"@, 0) == Some(seq!['ヤ']),
        onset_cell("Y"@, 1) == Some(seq!['イ']),
        onset_cell("Y"@, 2) == Some(seq!['ユ']),
        onset_cell("Y"@, 3) == Some(seq!['イ', 'ェ']),
        onset_cell("Y"@, 4) == Some(seq!['ヨ']),
{
    lemma_consonant_names();
    assert("Y"@[0] != "B"@[0]);
    assert("Y"@[0] != "D"@[0]);
    assert("Y"@[0] != "F"@[0]);
    assert("Y"@[0] != "G"@[0]);
    assert("Y"@[0] != "K"@[0]);
    assert("Y"@[0] != "L"@[0]);
    assert("Y"@[0] != "R"@[0]);
    assert("Y"@[0] != "M"@[0]);
    assert("Y"@[0] != "N"@[0]);
    assert("Y"@[0] != "P"@[0]);
    assert("Y"@[0] != "S"@[0]);
    assert("Y"@[0] != "T"@[0]);
    assert("Y"@[0] != "V"@[0]);
    assert("Y"@[0] != "W"@[0]);
    reveal_strlit("ヤ");
    reveal_strlit("イ");
    reveal_strlit("ユ");
    reveal_strlit("イェ");
    reveal_strlit("ヨ");
}

proof fn lemma_compound_row_zh()
    ensures
        onset_cell("ZH"@, 0) == Some(seq!['ジ', 'ャ']),
        onset_cell("ZH"@, 1) == Some(seq!['ジ']),
        onset_cell("ZH"@, 2) == Some(seq!['ジ', 'ュ']),
        onset_cell("ZH"@, 3) == Some(seq!['ジ', 'ェ']),
        onset_cell("ZH"@, 4) == Some(seq!['ジ', 'ョ']),
{
    lemma_consonant_names();
    assert("ZH"@[0] != "CH"@[0]);
    assert("ZH"@[0] != "DH"@[0]);
    assert("ZH"@[0] != "DX"@[0]);
    assert("ZH"@[0] != "HH"@[0]);
    assert("ZH"@[0] != "JH"@[0]);
    assert("ZH"@[0] != "NG"@[0]);
    assert("ZH"@[0] != "SH"@[0]);
    assert("ZH"@[0] != "TH"@[0]);
    reveal_strlit("ジャ");
    reveal_strlit("ジ");
    reveal_strlit("ジュ");
    reveal_strlit("ジェ");
    reveal_strlit("ジョ");
}

/// The onset rows that katakana spells with small kana, in the vowel
/// order a, i, u, e, o: the palatal rows CH, SH, JH and ZH are the
/// i-column kana (チ, シ, ジ) alone before i and with a small ャ, ュ, ェ, ョ
/// otherwise; T and D write i and u as テ/デ and ト/ド with a small ィ or
/// ゥ; F and V are フ and ヴ with a small vowel except before u; W is ワ
/// before a and ウ (with a small vowel before i, e and o) otherwise; Y is
/// ヤ, イ, ユ, イェ, ヨ; and NG is ン before the G row.
pub proof fn compound_onset_rows_use_small_kana()
    ensures
        onset_cell("CH"@, 0) == Some(seq!['チ', 'ャ']),
        onset_cell("CH"@, 1) == Some(seq!['チ']),
        onset_cell("CH"@, 2) == Some(seq!['チ', 'ュ']),
        onset_cell("CH"@, 3) == Some(seq!['チ', 'ェ']),
        onset_cell("CH"@, 4) == Some(seq!['チ', 'ョ']),
        onset_cell("D"@, 0) == Some(seq!['ダ']),
        onset_cell("D"@, 1) == Some(seq!['デ', 'ィ']),
        onset_cell("D"@, 2) == Some(seq!['ド', 'ゥ']),
        onset_cell("D"@, 3) == Some(seq!['デ']),
        onset_cell("D"@, 4) == Some(seq!['ド']),
        onset_cell("F"@, 0) == Some(seq!['フ', 'ァ']),
        onset_cell("F"@, 1) == Some(seq!['フ', 'ィ']),
        onset_cell("F"@, 2) == Some(seq!['フ']),
        onset_cell("F"@, 3) == Some(seq!['フ', 'ェ']),
        onset_cell("F"@, 4) == Some(seq!['フ', 'ォ']),
        onset_cell("JH"@, 0) == Some(seq!['ジ', 'ャ']),
        onset_cell("JH"@, 1) == Some(seq!['ジ']),
        onset_cell("JH"@, 2) == Some(seq!['ジ', 'ュ']),
        onset_cell("JH"@, 3) == Some(seq!['ジ', 'ェ']),
        onset_cell("JH"@, 4) == Some(seq!['ジ', 'ョ']),
        onset_cell("NG"@, 0) == Some(seq!['ン', 'ガ']),
        onset_cell("NG"@, 1) == Some(seq!['ン', 'ギ']),
        onset_cell("NG"@, 2) == Some(seq!['ン', 'グ']),
        onset_cell("NG"@, 3) == Some(seq!['ン', 'ゲ']),
        onset_cell("NG"@, 4) == Some(seq!['ン', 'ゴ']),
        onset_cell("SH"@, 0) == Some(seq!['シ', 'ャ']),
        onset_cell("SH"@, 1) == Some(seq!['シ']),
        onset_cell("SH"@, 2) == Some(seq!['シ', 'ュ']),
        onset_cell("SH"@, 3) == Some(seq!['シ', 'ェ']),
        onset_cell("SH"@, 4) == Some(seq!['シ', 'ョ']),
        onset_cell("T"@, 0) == Some(seq!['タ']),
        onset_cell("T"@, 1) == Some(seq!['テ', 'ィ']),
        onset_cell("T"@, 2) == Some(seq!['ト', 'ゥ']),
        onset_cell("T"@, 3) == Some(seq!['テ']),
        onset_cell("T"@, 4) == Some(seq!['ト']),
        onset_cell("V"@, 0) == Some(seq!['ヴ', 'ァ']),
        onset_cell("V"@, 1) == Some(seq!['ヴ', 'ィ']),
        onset_cell("V"@, 2) == Some(seq!['ヴ']),
        onset_cell("V"@, 3) == Some(seq!['ヴ', 'ェ']),
        onset_cell("V"@, 4) == Some(seq!['ヴ', 'ォ']),
        onset_cell("W"@, 0) == Some(seq!['ワ']),
        onset_cell("W"@, 1) == Some(seq!['ウ', 'ィ']),
        onset_cell("W"@, 2) == Some(seq!['ウ']),
        onset_cell("W"@, 3) == Some(seq!['ウ', 'ェ']),
        onset_cell("W"@, 4) == Some(seq!['ウ', 'ォ']),
        onset_cell("Y"@, 0) == Some(seq!['ヤ']),
        onset_cell("Y"@, 1) == Some(seq!['イ']),
        onset_cell("Y"@, 2) == Some(seq!['ユ']),
        onset_cell("Y"@, 3) == Some(seq!['イ', 'ェ']),
        onset_cell("Y"@, 4) == Some(seq!['ヨ']),
        onset_cell("ZH"@, 0) == Some(seq!['ジ', 'ャ']),
        onset_cell("ZH"@, 1) == Some(seq!['ジ']),
        onset_cell("ZH"@, 2) == Some(seq!['ジ', 'ュ']),
        onset_cell("ZH"@, 3) == Some(seq!['ジ', 'ェ']),
        onset_cell("ZH"@, 4) == Some(seq!['ジ', 'ョ']),
{
    lemma_compound_row_ch();
    lemma_compound_row_d();
    lemma_compound_row_f();
    lemma_compound_row_jh();
    lemma_compound_row_ng();
    lemma_compound_row_sh();
    lemma_compound_row_t();
    lemma_compound_row_v();
    lemma_compound_row_w();
    lemma_compound_row_y();
    lemma_compound_row_zh();
}

proof fn lemma_vowel_names()
    ensures
        "AA"@ == seq!['A', 'A'],
        "AE"@ == seq!['A', 'E'],
        "AH"@ == seq!['A', 'H'],
        "AO"@ == seq!['A', 'O'],
        "AW"@ == seq!['A', 'W'],
        "AY"@ == seq!['A', 'Y'],
        "EH"@ == seq!['E', 'H'],
        "ER"@ == seq!['E', 'R'],
        "EY"@ == seq!['E', 'Y'],
        "IH"@ == seq!['I', 'H'],
        "IY"@ == seq!['I', 'Y'],
        "OW"@ == seq!['O', 'W'],
        "OY"@ == seq!['O', 'Y'],
        "UH"@ == seq!['U', 'H'],
        "UW"@ == seq!['U', 'W'],
        "AA"@[1] != "AE"@[1],
        "AA"@[1] != "AH"@[1],
        "AA"@[1] != "AO"@[1],
        "AA"@[1] != "AW"@[1],
        "AA"@[1] != "AY"@[1],
        "AA"@[0] != "EH"@[0],
        "AA"@[0] != "ER"@[0],
        "AA"@[0] != "EY"@[0],
        "AA"@[0] != "IH"@[0],
        "AA"@[0] != "IY"@[0],
        "AA"@[0] != "OW"@[0],
        "AA"@[0] != "OY"@[0],
        "AA"@[0] != "UH"@[0],
        "AA"@[0] != "UW"@[0],
        "AE"@[1] != "AH"@[1],
        "AE"@[1] != "AO"@[1],
        "AE"@[1] != "AW"@[1],
        "AE"@[1] != "AY"@[1],
        "AE"@[0] != "EH"@[0],
        "AE"@[0] != "ER"@[0],
        "AE"@[0] != "EY"@[0],
        "AE"@[0] != "IH"@[0],
        "AE"@[0] != "IY"@[0],
        "AE"@[0] != "OW"@[0],
        "AE"@[0] != "OY"@[0],
        "AE"@[0] != "UH"@[0],
        "AE"@[0] != "UW"@[0],
        "AH"@[1] != "AO"@[1],
        "AH"@[1] != "AW"@[1],
        "AH"@[1] != "AY"@[1],
        "AH"@[0] != "EH"@[0],
        "AH"@[0] != "ER"@[0],
        "AH"@[0] != "EY"@[0],
        "AH"@[0] != "IH"@[0],
        "AH"@[0] != "IY"@[0],
        "AH"@[0] != "OW"@[0],
        "AH"@[0] != "OY"@[0],
        "AH"@[0] != "UH"@[0],
        "AH"@[0] != "UW"@[0],
        "AO"@[1] != "AW"@[1],
        "AO"@[1] != "AY"@[1],
        "AO"@[0] != "EH"@[0],
        "AO"@[0] != "ER"@[0],
        "AO"@[0] != "EY"@[0],
        "AO"@[0] != "IH"@[0],
        "AO"@[0] != "IY"@[0],
        "AO"@[0] != "OW"@[0],
        "AO"@[0] != "OY"@[0],
        "AO"@[0] != "UH"@[0],
        "AO"@[0] != "UW"@[0],
        "AW"@[1] != "AY"@[1],
        "AW"@[0] != "EH"@[0],
        "AW"@[0] != "ER"@[0],
        "AW"@[0] != "EY"@[0],
        "AW"@[0] != "IH"@[0],
        "AW"@[0] != "IY"@[0],
        "AW"@[0] != "OW"@[0],
        "AW"@[0] != "OY"@[0],
        "AW"@[0] != "UH"@[0],
        "AW"@[0] != "UW"@[0],
        "AY"@[0] != "EH"@[0],
        "AY"@[0] != "ER"@[0],
        "AY"@[0] != "EY"@[0],
        "AY"@[0] != "IH"@[0],
        "AY"@[0] != "IY"@[0],
        "AY"@[0] != "OW"@[0],
        "AY"@[0] != "OY"@[0],
        "AY"@[0] != "UH"@[0],
        "AY"@[0] != "UW"@[0],
        "EH"@[1] != "ER"@[1],
        "EH"@[1] != "EY"@[1],
        "EH"@[0] != "IH"@[0],
        "EH"@[0] != "IY"@[0],
        "EH"@[0] != "OW"@[0],
        "EH"@[0] != "OY"@[0],
        "EH"@[0] != "UH"@[0],
        "EH"@[0] != "UW"@[0],
        "ER"@[1] != "EY"@[1],
        "ER"@[0] != "IH"@[0],
        "ER"@[0] != "IY"@[0],
        "ER"@[0] != "OW"@[0],
        "ER"@[0] != "OY"@[0],
        "ER"@[0] != "UH"@[0],
        "ER"@[0] != "UW"@[0],
        "EY"@[0] != "IH"@[0],
        "EY"@[0] != "IY"@[0],
        "EY"@[0] != "OW"@[0],
        "EY"@[0] != "OY"@[0],
        "EY"@[0] != "UH"@[0],
        "EY"@[0] != "UW"@[0],
        "IH"@[1] != "IY"@[1],
        "IH"@[0] != "OW"@[0],
        "IH"@[0] != "OY"@[0],
        "IH"@[0] != "UH"@[0],
        "IH"@[0] != "UW"@[0],
        "IY"@[0] != "OW"@[0],
        "IY"@[0] != "OY"@[0],
        "IY"@[0] != "UH"@[0],
        "IY"@[0] != "UW"@[0],
        "OW"@[1] != "OY"@[1],
        "OW"@[0] != "UH"@[0],
        "OW"@[0] != "UW"@[0],
        "OY"@[0] != "UH"@[0],
        "OY"@[0] != "UW"@[0],
        "UH"@[1] != "UW"@[1],
{
    reveal_strlit("AA");
    reveal_strlit("AE");
    reveal_strlit("AH");
    reveal_strlit("AO");
    reveal_strlit("AW");
    reveal_strlit("AY");
    reveal_strlit("EH");
    reveal_strlit("ER");
    reveal_strlit("EY");
    reveal_strlit("IH");
    reveal_strlit("IY");
    reveal_strlit("OW");
    reveal_strlit("OY");
    reveal_strlit("UH");
    reveal_strlit("UW");
}

/// A vowel with no consonant before it is written as the kana of the
/// vowel row ア, イ, ウ, エ, オ (code points two apart) of its onset column,
/// followed by the same tail it takes after a consonant (the long mark or
/// the second kana of a diphthong): so "AY" is アイ as "M AY" is マイ.
pub proof fn lone_vowels_use_the_vowel_row(symbol: Seq<char>)
    requires
        vowel_slot(base_of(symbol)) is Some,
    ensures
        vowel_kana(symbol) == kana_at(0x30a2 + 2 * vowel_slot(base_of(symbol))->0) + onset_suffix(symbol),
{
    lemma_vowel_names();
    reveal_strlit("ア");
    reveal_strlit("オー");
    reveal_strlit("アウ");
    reveal_strlit("アイ");
    reveal_strlit("エ");
    reveal_strlit("アー");
    reveal_strlit("エイ");
    reveal_strlit("イ");
    reveal_strlit("イー");
    reveal_strlit("オウ");
    reveal_strlit("オイ");
    reveal_strlit("ウ");
    reveal_strlit("ウー");
    reveal_strlit("ー");
    reveal_strlit("");
    let b = base_of(symbol);
    if b == "AA"@ { assert(b == "AA"@); }
    if b == "AE"@ { assert(b == "AE"@); }
    if b == "AH"@ { assert(b == "AH"@); }
    if b == "AO"@ { assert(b == "AO"@); }
    if b == "AW"@ { assert(b == "AW"@); }
    if b == "AY"@ { assert(b == "AY"@); }
    if b == "EH"@ { assert(b == "EH"@); }
    if b == "ER"@ { assert(b == "ER"@); }
    if b == "EY"@ { assert(b == "EY"@); }
    if b == "IH"@ { assert(b == "IH"@); }
    if b == "IY"@ { assert(b == "IY"@); }
    if b == "OW"@ { assert(b == "OW"@); }
    if b == "OY"@ { assert(b == "OY"@); }
    if b == "UH"@ { assert(b == "UH"@); }
    if b == "UW"@ { assert(b == "UW"@); }
}

proof fn lemma_palatal_row_b(column: int)
    requires
        0 <= column < 3,
    ensures
        palatal_cell("B"@, column) == Some(seq!['ビ'] + kana_at(0x30e3 + 2 * column)),
{
    lemma_consonant_names();
    reveal_strlit("ビャ");
    reveal_strlit("ビュ");
    reveal_strlit("ビョ");
}

proof fn lemma_palatal_row_d(column: int)
    requires
        0 <= column < 3,
    ensures
        palatal_cell("D"@, column) == Some(seq!['ヂ'] + kana_at(0x30e3 + 2 * column)),
{
    lemma_consonant_names();
    assert("D"@[0] != "B"@[0]);
    reveal_strlit("ヂャ");
    reveal_strlit("ヂュ");
    reveal_strlit("ヂョ");
}

proof fn lemma_palatal_row_f(column: int)
    requires
        0 <= column < 3,
    ensures
        palatal_cell("F"@, column) == Some(seq!['フ'] + kana_at(0x30e3 + 2 * column)),
{
    lemma_consonant_names();
    assert("F"@[0] != "B"@[0]);
    assert("F"@[0] != "D"@[0]);
    reveal_strlit("フャ");
    reveal_strlit("フュ");
    reveal_strlit("フョ");
}

proof fn lemma_palatal_row_g(column: int)
    requires
        0 <= column < 3,
    ensures
        palatal_cell("G"@, column) == Some(seq!['ギ'] + kana_at(0x30e3 + 2 * column)),
{
    lemma_consonant_names();
    assert("G"@[0] != "B"@[0]);
    assert("G"@[0] != "D"@[0]);
    assert("G"@[0] != "F"@[0]);
    reveal_strlit("ギャ");
    reveal_strlit("ギュ");
    reveal_strlit("ギョ");
}

proof fn lemma_palatal_row_k(column: int)
    requires
        0 <= column < 3,
    ensures
        palatal_cell("K"@, column) == Some(seq!['キ'] + kana_at(0x30e3 + 2 * column)),
{
    lemma_consonant_names();
    assert("K"@[0] != "B"@[0]);
    assert("K"@[0] != "D"@[0]);
    assert("K"@[0] != "F"@[0]);
    assert("K"@[0] != "G"@[0]);
    reveal_strlit("キャ");
    reveal_strlit("キュ");
    reveal_strlit("キョ");
}

proof fn lemma_palatal_row_m(column: int)
    requires
        0 <= column < 3,
    ensures
        palatal_cell("M"@, column) == Some(seq!['ミ'] + kana_at(0x30e3 + 2 * column)),
{
    lemma_consonant_names();
    assert("M"@[0] != "B"@[0]);
    assert("M"@[0] != "D"@[0]);
    assert("M"@[0] != "F"@[0]);
    assert("M"@[0] != "G"@[0]);
    assert("M"@[0] != "K"@[0]);
    reveal_strlit("ミャ");
    reveal_strlit("ミュ");
    reveal_strlit("ミョ");
}

proof fn lemma_palatal_row_n(column: int)
    requires
        0 <= column < 3,
    ensures
        palatal_cell("N"@, column) == Some(seq!['ニ'] + kana_at(0x30e3 + 2 * column)),
{
    lemma_consonant_names();
    assert("N"@[0] != "B"@[0]);
    assert("N"@[0] != "D"@[0]);
    assert("N"@[0] != "F"@[0]);
    assert("N"@[0] != "G"@[0]);
    assert("N"@[0] != "K"@[0]);
    assert("N"@[0] != "M"@[0]);
    reveal_strlit("ニャ");
    reveal_strlit("ニュ");
    reveal_strlit("ニョ");
}

proof fn lemma_palatal_row_p(column: int)
    requires
        0 <= column < 3,
    ensures
        palatal_cell("P"@, column) == Some(seq!['ピ'] + kana_at(0x30e3 + 2 * column)),
{
    lemma_consonant_names();
    assert("P"@[0] != "B"@[0]);
    assert("P"@[0] != "D"@[0]);
    assert("P"@[0] != "F"@[0]);
    assert("P"@[0] != "G"@[0]);
    assert("P"@[0] != "K"@[0]);
    assert("P"@[0] != "M"@[0]);
    assert("P"@[0] != "N"@[0]);
    reveal_strlit("ピャ");
    reveal_strlit("ピュ");
    reveal_strlit("ピョ");
}

proof fn lemma_palatal_row_r(column: int)
    requires
        0 <= column < 3,
    ensures
        palatal_cell("R"@, column) == Some(seq!['リ'] + kana_at(0x30e3 + 2 * column)),
{
    lemma_consonant_names();
    assert("R"@[0] != "B"@[0]);
    assert("R"@[0] != "D"@[0]);
    assert("R"@[0] != "F"@[0]);
    assert("R"@[0] != "G"@[0]);
    assert("R"@[0] != "K"@[0]);
    assert("R"@[0] != "M"@[0]);
    assert("R"@[0] != "N"@[0]);
    assert("R"@[0] != "P"@[0]);
    reveal_strlit("リャ");
    reveal_strlit("リュ");
    reveal_strlit("リョ");
}

proof fn lemma_palatal_row_s(column: int)
    requires
        0 <= column < 3,
    ensures
        palatal_cell("S"@, column) == Some(seq!['シ'] + kana_at(0x30e3 + 2 * column)),
{
    lemma_consonant_names();
    assert("S"@[0] != "B"@[0]);
    assert("S"@[0] != "D"@[0]);
    assert("S"@[0] != "F"@[0]);
    assert("S"@[0] != "G"@[0]);
    assert("S"@[0] != "K"@[0]);
    assert("S"@[0] != "M"@[0]);
    assert("S"@[0] != "N"@[0]);
    assert("S"@[0] != "P"@[0]);
    assert("S"@[0] != "R"@[0]);
    reveal_strlit("シャ");
    reveal_strlit("シュ");
    reveal_strlit("ショ");
}

proof fn lemma_palatal_row_t(column: int)
    requires
        0 <= column < 3,
    ensures
        palatal_cell("T"@, column) == Some(seq!['チ'] + kana_at(0x30e3 + 2 * column)),
{
    lemma_consonant_names();
    assert("T"@[0] != "B"@[0]);
    assert("T"@[0] != "D"@[0]);
    assert("T"@[0] != "F"@[0]);
    assert("T"@[0] != "G"@[0]);
    assert("T"@[0] != "K"@[0]);
    assert("T"@[0] != "M"@[0]);
    assert("T"@[0] != "N"@[0]);
    assert("T"@[0] != "P"@[0]);
    assert("T"@[0] != "R"@[0]);
    assert("T"@[0] != "S"@[0]);
    reveal_strlit("チャ");
    reveal_strlit("チュ");
    reveal_strlit("チョ");
}

proof fn lemma_palatal_row_v(column: int)
    requires
        0 <= column < 3,
    ensures
        palatal_cell("V"@, column) == Some(seq!['ヴ'] + kana_at(0x30e3 + 2 * column)),
{
    lemma_consonant_names();
    assert("V"@[0] != "B"@[0]);
    assert("V"@[0] != "D"@[0]);
    assert("V"@[0] != "F"@[0]);
    assert("V"@[0] != "G"@[0]);
    assert("V"@[0] != "K"@[0]);
    assert("V"@[0] != "M"@[0]);
    assert("V"@[0] != "N"@[0]);
    assert("V"@[0] != "P"@[0]);
    assert("V"@[0] != "R"@[0]);
    assert("V"@[0] != "S"@[0]);
    assert("V"@[0] != "T"@[0]);
    reveal_strlit("ヴャ");
    reveal_strlit("ヴュ");
    reveal_strlit("ヴョ");
}

proof fn lemma_palatal_row_z(column: int)
    requires
        0 <= column < 3,
    ensures
        palatal_cell("Z"@, column) == Some(seq!['ジ'] + kana_at(0x30e3 + 2 * column)),
{
    lemma_consonant_names();
    assert("Z"@[0] != "B"@[0]);
    assert("Z"@[0] != "D"@[0]);
    assert("Z"@[0] != "F"@[0]);
    assert("Z"@[0] != "G"@[0]);
    assert("Z"@[0] != "K"@[0]);
    assert("Z"@[0] != "M"@[0]);
    assert("Z"@[0] != "N"@[0]);
    assert("Z"@[0] != "P"@[0]);
    assert("Z"@[0] != "R"@[0]);
    assert("Z"@[0] != "S"@[0]);
    assert("Z"@[0] != "T"@[0]);
    assert("Z"@[0] != "V"@[0]);
    reveal_strlit("ジャ");
    reveal_strlit("ジュ");
    reveal_strlit("ジョ");
}

/// A consonant, `Y` and a vowel are written as one kana and a small ャ,
/// ュ or ョ (code points two apart) by the vowel's column (ya, yu, yo). The
/// kana is the consonant's own i-column kana (キャ from キ, ミュ from ミ),
/// except that T, D, F and V, whose i-column is spelled with a small ィ,
/// take チ, ヂ, フ and ヴ. No other consonant has a palatal syllable.
pub proof fn palatal_syllables_add_a_small_y_kana(column: int)
    requires
        0 <= column < 3,
    ensures
        palatal_cell("B"@, column) == Some(onset_cell("B"@, 1)->0 + kana_at(0x30e3 + 2 * column)),
        palatal_cell("G"@, column) == Some(onset_cell("G"@, 1)->0 + kana_at(0x30e3 + 2 * column)),
        palatal_cell("K"@, column) == Some(onset_cell("K"@, 1)->0 + kana_at(0x30e3 + 2 * column)),
        palatal_cell("M"@, column) == Some(onset_cell("M"@, 1)->0 + kana_at(0x30e3 + 2 * column)),
        palatal_cell("N"@, column) == Some(onset_cell("N"@, 1)->0 + kana_at(0x30e3 + 2 * column)),
        palatal_cell("P"@, column) == Some(onset_cell("P"@, 1)->0 + kana_at(0x30e3 + 2 * column)),
        palatal_cell("R"@, column) == Some(onset_cell("R"@, 1)->0 + kana_at(0x30e3 + 2 * column)),
        palatal_cell("S"@, column) == Some(onset_cell("S"@, 1)->0 + kana_at(0x30e3 + 2 * column)),
        palatal_cell("Z"@, column) == Some(onset_cell("Z"@, 1)->0 + kana_at(0x30e3 + 2 * column)),
        palatal_cell("D"@, column) == Some(seq!['ヂ'] + kana_at(0x30e3 + 2 * column)),
        palatal_cell("T"@, column) == Some(seq!['チ'] + kana_at(0x30e3 + 2 * column)),
        palatal_cell("F"@, column) == Some(seq!['フ'] + kana_at(0x30e3 + 2 * column)),
        palatal_cell("V"@, column) == Some(seq!['ヴ'] + kana_at(0x30e3 + 2 * column)),
        forall|c: Seq<char>| #[trigger] palatal_cell(c, column) is Some ==> c == "B"@ || c == "D"@ || c == "F"@ || c == "G"@ || c == "K"@ || c == "M"@ || c == "N"@ || c == "P"@ || c == "R"@ || c == "S"@ || c == "T"@ || c == "V"@ || c == "Z"@,
{
    lemma_palatal_row_b(column);
    lemma_palatal_row_d(column);
    lemma_palatal_row_f(column);
    lemma_palatal_row_g(column);
    lemma_palatal_row_k(column);
    lemma_palatal_row_m(column);
    lemma_palatal_row_n(column);
    lemma_palatal_row_p(column);
    lemma_palatal_row_r(column);
    lemma_palatal_row_s(column);
    lemma_palatal_row_t(column);
    lemma_palatal_row_v(column);
    lemma_palatal_row_z(column);
    lemma_row_b(1);
    lemma_row_g(1);
    lemma_row_k(1);
    lemma_row_m(1);
    lemma_row_n(1);
    lemma_row_p(1);
    lemma_row_r(1);
    lemma_row_s(1);
    lemma_row_z(1);
}

proof fn lemma_coda_b(previous_vowel: Option<Seq<char>>, after_consonant: bool)
    ensures
        coda_kana("B"@, previous_vowel, after_consonant) == onset_cell("B"@, 2)->0,
{
    lemma_consonant_names();
    reveal_strlit("ブ");
    lemma_row_b(2);
}

proof fn lemma_coda_ch(previous_vowel: Option<Seq<char>>, after_consonant: bool)
    ensures
        coda_kana("CH"@, previous_vowel, after_consonant) == onset_cell("CH"@, 1)->0,
{
    lemma_consonant_names();
    reveal_strlit("チ");
    lemma_compound_row_ch();
}

proof fn lemma_coda_d(previous_vowel: Option<Seq<char>>, after_consonant: bool)
    ensures
        coda_kana("D"@, previous_vowel, after_consonant) == onset_cell("D"@, 4)->0,
{
    lemma_consonant_names();
    assert("D"@[0] != "B"@[0]);
    reveal_strlit("ド");
    lemma_compound_row_d();
}

proof fn lemma_coda_dh(previous_vowel: Option<Seq<char>>, after_consonant: bool)
    ensures
        coda_kana("DH"@, previous_vowel, after_consonant) == onset_cell("D"@, 4)->0,
{
    lemma_consonant_names();
    assert("DH"@[0] != "CH"@[0]);
    reveal_strlit("ド");
    lemma_compound_row_d();
}

proof fn lemma_coda_dx(previous_vowel: Option<Seq<char>>, after_consonant: bool)
    ensures
        coda_kana("DX"@, previous_vowel, after_consonant) == onset_cell("DX"@, 2)->0,
{
    lemma_consonant_names();
    assert("DX"@[0] != "CH"@[0]);
    assert("DX"@[1] != "DH"@[1]);
    reveal_strlit("ル");
    lemma_row_dx(2);
}

proof fn lemma_coda_f(previous_vowel: Option<Seq<char>>, after_consonant: bool)
    ensures
        coda_kana("F"@, previous_vowel, after_consonant) == onset_cell("F"@, 2)->0,
{
    lemma_consonant_names();
    assert("F"@[0] != "B"@[0]);
    assert("F"@[0] != "D"@[0]);
    reveal_strlit("フ");
    lemma_compound_row_f();
}

proof fn lemma_coda_g(previous_vowel: Option<Seq<char>>, after_consonant: bool)
    ensures
        coda_kana("G"@, previous_vowel, after_consonant) == onset_cell("G"@, 2)->0,
{
    lemma_consonant_names();
    assert("G"@[0] != "B"@[0]);
    assert("G"@[0] != "D"@[0]);
    assert("G"@[0] != "F"@[0]);
    reveal_strlit("グ");
    lemma_row_g(2);
}

proof fn lemma_coda_hh(previous_vowel: Option<Seq<char>>, after_consonant: bool)
    ensures
        coda_kana("HH"@, previous_vowel, after_consonant) == Seq::<char>::empty(),
{
    lemma_consonant_names();
    assert("HH"@[0] != "CH"@[0]);
    assert("HH"@[0] != "DH"@[0]);
    assert("HH"@[0] != "DX"@[0]);
    reveal_strlit("");
}

proof fn lemma_coda_jh(previous_vowel: Option<Seq<char>>, after_consonant: bool)
    ensures
        coda_kana("JH"@, previous_vowel, after_consonant) == onset_cell("JH"@, 1)->0,
{
    lemma_consonant_names();
    assert("JH"@[0] != "CH"@[0]);
    assert("JH"@[0] != "DH"@[0]);
    assert("JH"@[0] != "DX"@[0]);
    assert("JH"@[0] != "HH"@[0]);
    reveal_strlit("ジ");
    lemma_compound_row_jh();
}

proof fn lemma_coda_k(previous_vowel: Option<Seq<char>>, after_consonant: bool)
    ensures
        coda_kana("K"@, previous_vowel, after_consonant) == (if long_vowel(previous_vowel) { onset_cell("K"@, 2)->0 } else { seq!['ッ'] + onset_cell("K"@, 2)->0 }),
{
    lemma_consonant_names();
    assert("K"@[0] != "B"@[0]);
    assert("K"@[0] != "D"@[0]);
    assert("K"@[0] != "F"@[0]);
    assert("K"@[0] != "G"@[0]);
    reveal_strlit("ク");
    reveal_strlit("ック");
    lemma_row_k(2);
}

proof fn lemma_coda_l(previous_vowel: Option<Seq<char>>, after_consonant: bool)
    ensures
        coda_kana("L"@, previous_vowel, after_consonant) == onset_cell("L"@, 2)->0,
{
    lemma_consonant_names();
    assert("L"@[0] != "B"@[0]);
    assert("L"@[0] != "D"@[0]);
    assert("L"@[0] != "F"@[0]);
    assert("L"@[0] != "G"@[0]);
    assert("L"@[0] != "K"@[0]);
    reveal_strlit("ル");
    lemma_row_l(2);
}

proof fn lemma_coda_m(previous_vowel: Option<Seq<char>>, after_consonant: bool)
    ensures
        coda_kana("M"@, previous_vowel, after_consonant) == onset_cell("M"@, 2)->0,
{
    lemma_consonant_names();
    assert("M"@[0] != "B"@[0]);
    assert("M"@[0] != "D"@[0]);
    assert("M"@[0] != "F"@[0]);
    assert("M"@[0] != "G"@[0]);
    assert("M"@[0] != "K"@[0]);
    assert("M"@[0] != "L"@[0]);
    reveal_strlit("ム");
    lemma_row_m(2);
}

proof fn lemma_coda_n(previous_vowel: Option<Seq<char>>, after_consonant: bool)
    ensures
        coda_kana("N"@, previous_vowel, after_consonant) == seq!['ン'],
{
    lemma_consonant_names();
    assert("N"@[0] != "B"@[0]);
    assert("N"@[0] != "D"@[0]);
    assert("N"@[0] != "F"@[0]);
    assert("N"@[0] != "G"@[0]);
    assert("N"@[0] != "K"@[0]);
    assert("N"@[0] != "L"@[0]);
    assert("N"@[0] != "M"@[0]);
    reveal_strlit("ン");
}

proof fn lemma_coda_ng(previous_vowel: Option<Seq<char>>, after_consonant: bool)
    ensures
        coda_kana("NG"@, previous_vowel, after_consonant) == seq!['ン'] + onset_cell("G"@, 2)->0,
{
    lemma_consonant_names();
    assert("NG"@[0] != "CH"@[0]);
    assert("NG"@[0] != "DH"@[0]);
    assert("NG"@[0] != "DX"@[0]);
    assert("NG"@[0] != "HH"@[0]);
    assert("NG"@[0] != "JH"@[0]);
    reveal_strlit("ング");
    lemma_row_g(2);
}

proof fn lemma_coda_p(previous_vowel: Option<Seq<char>>, after_consonant: bool)
    ensures
        coda_kana("P"@, previous_vowel, after_consonant) == seq!['ッ'] + onset_cell("P"@, 2)->0,
{
    lemma_consonant_names();
    assert("P"@[0] != "B"@[0]);
    assert("P"@[0] != "D"@[0]);
    assert("P"@[0] != "F"@[0]);
    assert("P"@[0] != "G"@[0]);
    assert("P"@[0] != "K"@[0]);
    assert("P"@[0] != "L"@[0]);
    assert("P"@[0] != "M"@[0]);
    assert("P"@[0] != "N"@[0]);
    reveal_strlit("ップ");
    lemma_row_p(2);
}

proof fn lemma_coda_r(previous_vowel: Option<Seq<char>>, after_consonant: bool)
    ensures
        coda_kana("R"@, previous_vowel, after_consonant) == (if previous_vowel == Some("AO"@) || previous_vowel == Some("ER"@) { Seq::<char>::empty() } else if previous_vowel == Some("AA"@) { seq!['ー'] } else { seq!['ア'] }),
{
    lemma_consonant_names();
    assert("R"@[0] != "B"@[0]);
    assert("R"@[0] != "D"@[0]);
    assert("R"@[0] != "F"@[0]);
    assert("R"@[0] != "G"@[0]);
    assert("R"@[0] != "K"@[0]);
    assert("R"@[0] != "L"@[0]);
    assert("R"@[0] != "M"@[0]);
    assert("R"@[0] != "N"@[0]);
    assert("R"@[0] != "P"@[0]);
    reveal_strlit("");
    reveal_strlit("ー");
    reveal_strlit("ア");
}

proof fn lemma_coda_s(previous_vowel: Option<Seq<char>>, after_consonant: bool)
    ensures
        coda_kana("S"@, previous_vowel, after_consonant) == onset_cell("S"@, 2)->0,
{
    lemma_consonant_names();
    assert("S"@[0] != "B"@[0]);
    assert("S"@[0] != "D"@[0]);
    assert("S"@[0] != "F"@[0]);
    assert("S"@[0] != "G"@[0]);
    assert("S"@[0] != "K"@[0]);
    assert("S"@[0] != "L"@[0]);
    assert("S"@[0] != "M"@[0]);
    assert("S"@[0] != "N"@[0]);
    assert("S"@[0] != "P"@[0]);
    assert("S"@[0] != "R"@[0]);
    reveal_strlit("ス");
    lemma_row_s(2);
}

proof fn lemma_coda_sh(previous_vowel: Option<Seq<char>>, after_consonant: bool)
    ensures
        coda_kana("SH"@, previous_vowel, after_consonant) == onset_cell("SH"@, 2)->0,
{
    lemma_consonant_names();
    assert("SH"@[0] != "CH"@[0]);
    assert("SH"@[0] != "DH"@[0]);
    assert("SH"@[0] != "DX"@[0]);
    assert("SH"@[0] != "HH"@[0]);
    assert("SH"@[0] != "JH"@[0]);
    assert("SH"@[0] != "NG"@[0]);
    reveal_strlit("シュ");
    lemma_compound_row_sh();
}

proof fn lemma_coda_t(previous_vowel: Option<Seq<char>>, after_consonant: bool)
    ensures
        coda_kana("T"@, previous_vowel, after_consonant) == (if after_consonant || long_vowel(previous_vowel) { onset_cell("T"@, 4)->0 } else { seq!['ッ'] + onset_cell("T"@, 4)->0 }),
{
    lemma_consonant_names();
    assert("T"@[0] != "B"@[0]);
    assert("T"@[0] != "D"@[0]);
    assert("T"@[0] != "F"@[0]);
    assert("T"@[0] != "G"@[0]);
    assert("T"@[0] != "K"@[0]);
    assert("T"@[0] != "L"@[0]);
    assert("T"@[0] != "M"@[0]);
    assert("T"@[0] != "N"@[0]);
    assert("T"@[0] != "P"@[0]);
    assert("T"@[0] != "R"@[0]);
    assert("T"@[0] != "S"@[0]);
    reveal_strlit("ト");
    reveal_strlit("ット");
    lemma_compound_row_t();
}

proof fn lemma_coda_th(previous_vowel: Option<Seq<char>>, after_consonant: bool)
    ensures
        coda_kana("TH"@, previous_vowel, after_consonant) == onset_cell("TH"@, 2)->0,
{
    lemma_consonant_names();
    assert("TH"@[0] != "CH"@[0]);
    assert("TH"@[0] != "DH"@[0]);
    assert("TH"@[0] != "DX"@[0]);
    assert("TH"@[0] != "HH"@[0]);
    assert("TH"@[0] != "JH"@[0]);
    assert("TH"@[0] != "NG"@[0]);
    assert("TH"@[0] != "SH"@[0]);
    reveal_strlit("ス");
    lemma_row_th(2);
}

proof fn lemma_coda_v(previous_vowel: Option<Seq<char>>, after_consonant: bool)
    ensures
        coda_kana("V"@, previous_vowel, after_consonant) == onset_cell("V"@, 2)->0,
{
    lemma_consonant_names();
    assert("V"@[0] != "B"@[0]);
    assert("V"@[0] != "D"@[0]);
    assert("V"@[0] != "F"@[0]);
    assert("V"@[0] != "G"@[0]);
    assert("V"@[0] != "K"@[0]);
    assert("V"@[0] != "L"@[0]);
    assert("V"@[0] != "M"@[0]);
    assert("V"@[0] != "N"@[0]);
    assert("V"@[0] != "P"@[0]);
    assert("V"@[0] != "R"@[0]);
    assert("V"@[0] != "S"@[0]);
    assert("V"@[0] != "T"@[0]);
    reveal_strlit("ヴ");
    lemma_compound_row_v();
}

proof fn lemma_coda_w(previous_vowel: Option<Seq<char>>, after_consonant: bool)
    ensures
        coda_kana("W"@, previous_vowel, after_consonant) == Seq::<char>::empty(),
{
    lemma_consonant_names();
    assert("W"@[0] != "B"@[0]);
    assert("W"@[0] != "D"@[0]);
    assert("W"@[0] != "F"@[0]);
    assert("W"@[0] != "G"@[0]);
    assert("W"@[0] != "K"@[0]);
    assert("W"@[0] != "L"@[0]);
    assert("W"@[0] != "M"@[0]);
    assert("W"@[0] != "N"@[0]);
    assert("W"@[0] != "P"@[0]);
    assert("W"@[0] != "R"@[0]);
    assert("W"@[0] != "S"@[0]);
    assert("W"@[0] != "T"@[0]);
    assert("W"@[0] != "V"@[0]);
    reveal_strlit("");
}

proof fn lemma_coda_y(previous_vowel: Option<Seq<char>>, after_consonant: bool)
    ensures
        coda_kana("Y"@, previous_vowel, after_consonant) == Seq::<char>::empty(),
{
    lemma_consonant_names();
    assert("Y"@[0] != "B"@[0]);
    assert("Y"@[0] != "D"@[0]);
    assert("Y"@[0] != "F"@[0]);
    assert("Y"@[0] != "G"@[0]);
    assert("Y"@[0] != "K"@[0]);
    assert("Y"@[0] != "L"@[0]);
    assert("Y"@[0] != "M"@[0]);
    assert("Y"@[0] != "N"@[0]);
    assert("Y"@[0] != "P"@[0]);
    assert("Y"@[0] != "R"@[0]);
    assert("Y"@[0] != "S"@[0]);
    assert("Y"@[0] != "T"@[0]);
    assert("Y"@[0] != "V"@[0]);
    assert("Y"@[0] != "W"@[0]);
    reveal_strlit("");
}

proof fn lemma_coda_z(previous_vowel: Option<Seq<char>>, after_consonant: bool)
    ensures
        coda_kana("Z"@, previous_vowel, after_consonant) == onset_cell("Z"@, 2)->0,
{
    lemma_consonant_names();
    assert("Z"@[0] != "B"@[0]);
    assert("Z"@[0] != "D"@[0]);
    assert("Z"@[0] != "F"@[0]);
    assert("Z"@[0] != "G"@[0]);
    assert("Z"@[0] != "K"@[0]);
    assert("Z"@[0] != "L"@[0]);
    assert("Z"@[0] != "M"@[0]);
    assert("Z"@[0] != "N"@[0]);
    assert("Z"@[0] != "P"@[0]);
    assert("Z"@[0] != "R"@[0]);
    assert("Z"@[0] != "S"@[0]);
    assert("Z"@[0] != "T"@[0]);
    assert("Z"@[0] != "V"@[0]);
    assert("Z"@[0] != "W"@[0]);
    assert("Z"@[0] != "Y"@[0]);
    reveal_strlit("ズ");
    lemma_row_z(2);
}

proof fn lemma_coda_zh(previous_vowel: Option<Seq<char>>, after_consonant: bool)
    ensures
        coda_kana("ZH"@, previous_vowel, after_consonant) == onset_cell("ZH"@, 2)->0,
{
    lemma_consonant_names();
    assert("ZH"@[0] != "CH"@[0]);
    assert("ZH"@[0] != "DH"@[0]);
    assert("ZH"@[0] != "DX"@[0]);
    assert("ZH"@[0] != "HH"@[0]);
    assert("ZH"@[0] != "JH"@[0]);
    assert("ZH"@[0] != "NG"@[0]);
    assert("ZH"@[0] != "SH"@[0]);
    assert("ZH"@[0] != "TH"@[0]);
    reveal_strlit("ジュ");
    lemma_compound_row_zh();
}

/// A consonant that no vowel follows is sung with a short u, as its
/// u-column onset kana (ブ, フ, グ, ム, ス, ヴ, ズ, ル, シュ, ジュ; TH like S
/// and the flap like R); CH and JH keep their i-column kana (チ, ジ) and D
/// and DH take ド. The stops K, P and T double (a small ッ in front) after
/// a short vowel, K and T not after a long vowel or diphthong and T not
/// after another consonant. N is ン and NG is ン before グ; H, W and Y are
/// silent; R is silent after AO and ER, lengthens AA (ー) and is ア
/// otherwise.
pub proof fn codas_are_sung_with_a_short_u(previous_vowel: Option<Seq<char>>, after_consonant: bool)
    ensures
        coda_kana("B"@, previous_vowel, after_consonant) == onset_cell("B"@, 2)->0,
        coda_kana("CH"@, previous_vowel, after_consonant) == onset_cell("CH"@, 1)->0,
        coda_kana("D"@, previous_vowel, after_consonant) == onset_cell("D"@, 4)->0,
        coda_kana("DH"@, previous_vowel, after_consonant) == onset_cell("D"@, 4)->0,
        coda_kana("DX"@, previous_vowel, after_consonant) == onset_cell("DX"@, 2)->0,
        coda_kana("F"@, previous_vowel, after_consonant) == onset_cell("F"@, 2)->0,
        coda_kana("G"@, previous_vowel, after_consonant) == onset_cell("G"@, 2)->0,
        coda_kana("HH"@, previous_vowel, after_consonant) == Seq::<char>::empty(),
        coda_kana("JH"@, previous_vowel, after_consonant) == onset_cell("JH"@, 1)->0,
        coda_kana("K"@, previous_vowel, after_consonant) == (if long_vowel(previous_vowel) { onset_cell("K"@, 2)->0 } else { seq!['ッ'] + onset_cell("K"@, 2)->0 }),
        coda_kana("L"@, previous_vowel, after_consonant) == onset_cell("L"@, 2)->0,
        coda_kana("M"@, previous_vowel, after_consonant) == onset_cell("M"@, 2)->0,
        coda_kana("N"@, previous_vowel, after_consonant) == seq!['ン'],
        coda_kana("NG"@, previous_vowel, after_consonant) == seq!['ン'] + onset_cell("G"@, 2)->0,
        coda_kana("P"@, previous_vowel, after_consonant) == seq!['ッ'] + onset_cell("P"@, 2)->0,
        coda_kana("R"@, previous_vowel, after_consonant) == (if previous_vowel == Some("AO"@) || previous_vowel == Some("ER"@) { Seq::<char>::empty() } else if previous_vowel == Some("AA"@) { seq!['ー'] } else { seq!['ア'] }),
        coda_kana("S"@, previous_vowel, after_consonant) == onset_cell("S"@, 2)->0,
        coda_kana("SH"@, previous_vowel, after_consonant) == onset_cell("SH"@, 2)->0,
        coda_kana("T"@, previous_vowel, after_consonant) == (if after_consonant || long_vowel(previous_vowel) { onset_cell("T"@, 4)->0 } else { seq!['ッ'] + onset_cell("T"@, 4)->0 }),
        coda_kana("TH"@, previous_vowel, after_consonant) == onset_cell("TH"@, 2)->0,
        coda_kana("V"@, previous_vowel, after_consonant) == onset_cell("V"@, 2)->0,
        coda_kana("W"@, previous_vowel, after_consonant) == Seq::<char>::empty(),
        coda_kana("Y"@, previous_vowel, after_consonant) == Seq::<char>::empty(),
        coda_kana("Z"@, previous_vowel, after_consonant) == onset_cell("Z"@, 2)->0,
        coda_kana("ZH"@, previous_vowel, after_consonant) == onset_cell("ZH"@, 2)->0,
{
    lemma_coda_b(previous_vowel, after_consonant);
    lemma_coda_ch(previous_vowel, after_consonant);
    lemma_coda_d(previous_vowel, after_consonant);
    lemma_coda_dh(previous_vowel, after_consonant);
    lemma_coda_dx(previous_vowel, after_consonant);
    lemma_coda_f(previous_vowel, after_consonant);
    lemma_coda_g(previous_vowel, after_consonant);
    lemma_coda_hh(previous_vowel, after_consonant);
    lemma_coda_jh(previous_vowel, after_consonant);
    lemma_coda_k(previous_vowel, after_consonant);
    lemma_coda_l(previous_vowel, after_consonant);
    lemma_coda_m(previous_vowel, after_consonant);
    lemma_coda_n(previous_vowel, after_consonant);
    lemma_coda_ng(previous_vowel, after_consonant);
    lemma_coda_p(previous_vowel, after_consonant);
    lemma_coda_r(previous_vowel, after_consonant);
    lemma_coda_s(previous_vowel, after_consonant);
    lemma_coda_sh(previous_vowel, after_consonant);
    lemma_coda_t(previous_vowel, after_consonant);
    lemma_coda_th(previous_vowel, after_consonant);
    lemma_coda_v(previous_vowel, after_consonant);
    lemma_coda_w(previous_vowel, after_consonant);
    lemma_coda_y(previous_vowel, after_consonant);
    lemma_coda_z(previous_vowel, after_consonant);
    lemma_coda_zh(previous_vowel, after_consonant);
}

} // verus!
