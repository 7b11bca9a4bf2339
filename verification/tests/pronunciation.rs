use benzaiten::cli::generate_line_readings;
use benzaiten::domain::lyrics::{parse_lyrics, ReadingSource};
use benzaiten::pronunciation::english::EnglishPronunciationEngine;
use benzaiten::pronunciation::katakana::from_phonemes;
use benzaiten::pronunciation::phoneme::Phoneme;
use benzaiten::pronunciation::readings::generate_readings;
use benzaiten::pronunciation::PronunciationEngine;

/// A small pronouncing dictionary in CMUdict's format holding the words
/// these tests sing.
const DICTIONARY: &str = "a AH0
a(2) EY1
about AH0 B AW1 T
again AH0 G EH1 N
all AO1 L
alone AH0 L OW1 N
always AO1 L W EY2 Z
an AE1 N
an(2) AH0 N
and AH0 N D
and(2) AE1 N D
are AA1 R
are(2) ER0
away AH0 W EY1
baby B EY1 B IY0
be B IY1
believe B IH0 L IY1 V
but B AH1 T
by B AY1
can K AE1 N
can(2) K AH0 N
come K AH1 M
dance D AE1 N S
day D EY1
did D IH1 D
do D UW1
don't D OW1 N T
down D AW1 N
dream D R IY1 M
every EH1 V ER0 IY0
everything EH1 V R IY0 TH IH2 NG
excited IH0 K S AY1 T AH0 D
excited(2) IH0 K S AY1 T IH0 D
eyes AY1 Z
feel F IY1 L
for F AO1 R
for(2) F ER0
for(3) F R ER0
forced F AO1 R S T
forever F ER0 EH1 V ER0
get G EH1 T
get(2) G IH1 T
go G OW1
good G UH1 D
have HH AE1 V
heart HH AA1 R T
hello HH AH0 L OW1
hello(2) HH EH0 L OW1
here HH IY1 R
hold HH OW1 L D
home HH OW1 M
i AY1
i'm AY1 M
in IH0 N
in(2) IH1 N
is IH1 Z
is(2) IH0 Z
it IH1 T
it(2) IH0 T
just JH AH1 S T
just(2) JH IH0 S T
know N OW1
light L AY1 T
like L AY1 K
lives L IH1 V Z
lives(2) L AY1 V Z
living L IH1 V IH0 NG
love L AH1 V
me M IY1
my M AY1
never N EH1 V ER0
night N AY1 T
no N OW1
now N AW1
of AH1 V
on AA1 N
on(2) AO1 N
one W AH1 N
our AW1 ER0
our(2) AW1 R
our(3) AA1 R
out AW1 T
sacrifice S AE1 K R AH0 F AY2 S
say S EY1
see S IY1
sing S IH1 NG
so S OW1
song S AO1 NG
stay S T EY1
that DH AE1 T
that(2) DH AH0 T
that's DH AE1 T S
the DH AH0
the(2) DH AH1
the(3) DH IY0
their DH EH1 R
this DH IH1 S
time T AY1 M
to T UW1
to(2) T IH0
to(3) T AH0
together T AH0 G EH1 DH ER0
tonight T AH0 N AY1 T
want W AA1 N T
want(2) W AO1 N T
way W EY1
we W IY1
what W AH1 T
what(2) HH W AH1 T
when W EH1 N
when(2) HH W EH1 N
will W IH1 L
with W IH1 DH
with(2) W IH1 TH
world W ER1 L D
yes Y EH1 S
you Y UW1
your Y AO1 R
your(2) Y UH1 R
";

fn engine() -> EnglishPronunciationEngine {
    EnglishPronunciationEngine::new(DICTIONARY)
}

fn phones(symbols: &[&str]) -> Vec<Phoneme> {
    symbols.iter().map(|s| Phoneme::new(s)).collect()
}

#[test]
fn dictionary_and_context_create_singing_guide() {
    let result = engine()
        .generate("We are living our lives")
        .unwrap();
    assert_eq!(result.reading, "ウィー アー リヴィング アウアー ライヴズ");
    assert!(result.unknown_words.is_empty());
}

#[test]
fn applies_flap_and_yod_coalescence_between_words() {
    let get_it = engine().generate("get it").unwrap();
    let did_you = engine().generate("did you").unwrap();
    assert!(get_it.reading.starts_with("ゲリ"));
    assert!(did_you.reading.contains("ジュ"));
}

#[test]
fn does_not_connect_across_punctuation_or_after_a_consonant_cluster() {
    let punctuation = engine().generate("out! Yes").unwrap();
    let world_is = engine().generate("world is").unwrap();
    assert_eq!(punctuation.reading, "アウト イェス");
    assert_eq!(world_is.reading, "ワールド イズ");
}

#[test]
fn renders_common_singing_clusters_without_extra_gemination() {
    let result = engine()
        .generate("That's sacrifice excited forced you")
        .unwrap();
    assert_eq!(
        result.reading,
        "ザッツ サクラファイス イクサイタド フォースチュー"
    );
}

#[test]
fn reports_unknown_words_without_failing_the_line() {
    let result = engine().generate("qzxqzx").unwrap();
    assert!(!result.reading.is_empty());
    assert_eq!(result.unknown_words, ["qzxqzx"]);
}

#[test]
fn a_line_without_words_has_an_empty_guide() {
    let result = engine().generate("  !? 123 ").unwrap();
    assert_eq!(result.reading, "");
    assert_eq!(result.phonemes, Some(Vec::new()));
    assert!(result.unknown_words.is_empty());
}

#[test]
fn phonemes_of_the_guide_carry_word_boundaries() {
    let result = engine().generate("we are").unwrap();
    assert_eq!(result.phonemes, Some(phones(&["W", "IY1", "|", "AA1", "R"])));
}

#[test]
fn linked_flap_moves_the_next_word_into_the_first() {
    let result = engine().generate("get it").unwrap();
    assert_eq!(
        result.phonemes,
        Some(phones(&["G", "EH1", "DX", "IH1", "T", "|"]))
    );
    assert_eq!(result.reading, "ゲリット");
}

#[test]
fn function_words_take_their_weak_forms() {
    let result = engine().generate("the world and you").unwrap();
    assert_eq!(
        result.phonemes,
        Some(phones(&[
            "DH", "AH0", "|", "W", "ER1", "L", "D", "|", "AH0", "N", "|", "Y", "UW1"
        ]))
    );
    let before_vowel = engine().generate("the eyes").unwrap();
    assert_eq!(
        before_vowel.phonemes,
        Some(phones(&["DH", "IY0", "|", "AY1", "Z"]))
    );
}

#[test]
fn curly_apostrophes_and_capitals_are_folded() {
    let result = engine().generate("THAT\u{2019}S").unwrap();
    assert_eq!(result.reading, "ザッツ");
    assert!(result.unknown_words.is_empty());
}

#[test]
fn unknown_words_are_spelled_out_and_listed_in_order() {
    let result = engine().generate("zz we zz").unwrap();
    assert_eq!(result.unknown_words, ["zz", "zz"]);
    assert_eq!(result.reading, "ジージー ウィー ジージー");
}

#[test]
fn a_palatal_onset_without_a_table_entry_fails_the_line() {
    let error = from_phonemes(&phones(&["V", "AE1", "L", "Y", "UW0"])).unwrap_err();
    assert_eq!(error, "unsupported palatal ARPAbet onset: L Y");
}

#[test]
fn katakana_words_are_joined_with_single_spaces() {
    let reading = from_phonemes(&phones(&["|", "N", "OW1", "|", "|", "W", "EY1", "|"])).unwrap();
    assert_eq!(reading, "ノウ ウェイ");
    assert_eq!(from_phonemes(&phones(&[])).unwrap(), "");
}

#[test]
fn codas_follow_the_vowel_before_them() {
    assert_eq!(from_phonemes(&phones(&["B", "UH1", "K"])).unwrap(), "ブック");
    assert_eq!(from_phonemes(&phones(&["L", "AY1", "K"])).unwrap(), "ライク");
    assert_eq!(from_phonemes(&phones(&["K", "AA1", "R"])).unwrap(), "カー");
    assert_eq!(from_phonemes(&phones(&["F", "AO1", "R"])).unwrap(), "フォー");
    assert_eq!(from_phonemes(&phones(&["HH", "IY1", "R"])).unwrap(), "ヒーア");
    assert_eq!(from_phonemes(&phones(&["AH1", "P"])).unwrap(), "アップ");
}

#[test]
fn phoneme_base_drops_stress_digits() {
    assert_eq!(Phoneme::new("EY1").base(), "EY");
    assert_eq!(Phoneme::new("T").base(), "T");
    assert_eq!(Phoneme::new("AH0").base(), "AH");
    assert!(Phoneme::new("AH0").is_vowel());
    assert!(!Phoneme::new("NG").is_vowel());
    assert!(Phoneme::new("|").is_word_boundary());
    assert!(!Phoneme::new("T").is_word_boundary());
}

#[test]
fn generated_readings_never_overwrite_manual_ones() {
    let mut lyrics = parse_lyrics("we are\n\nhello\nzz");
    lyrics[2].reading_text = Some("ハロー！".into());
    lyrics[2].reading_source = Some(ReadingSource::Manual);
    let report = generate_readings(&engine(), &mut lyrics).unwrap();
    assert_eq!(report.generated, 2);
    assert_eq!(report.preserved, 1);
    assert_eq!(report.unknown_words, ["zz"]);
    assert_eq!(lyrics[0].reading_text.as_deref(), Some("ウィー アー"));
    assert_eq!(lyrics[0].reading_source, Some(ReadingSource::Generated));
    assert_eq!(lyrics[1].reading_text, None);
    assert_eq!(lyrics[2].reading_text.as_deref(), Some("ハロー！"));
    assert_eq!(lyrics[2].reading_source, Some(ReadingSource::Manual));
    assert_eq!(lyrics[3].reading_text.as_deref(), Some("ジージー"));
}

#[test]
fn unknown_words_are_reported_sorted_and_once() {
    let mut lyrics = parse_lyrics("zz qq\nqq aa zz");
    let report = generate_readings(&engine(), &mut lyrics).unwrap();
    assert_eq!(report.unknown_words, ["aa", "qq", "zz"]);
}

#[test]
fn a_line_without_words_gets_no_generated_reading() {
    let mut lyrics = parse_lyrics("123 !!!");
    lyrics[0].reading_text = Some("x".into());
    lyrics[0].reading_source = Some(ReadingSource::Generated);
    generate_readings(&engine(), &mut lyrics).unwrap();
    assert_eq!(lyrics[0].reading_text, None);
    assert_eq!(lyrics[0].reading_source, None);
}

#[test]
fn batch_generation_keeps_even_empty_readings() {
    let mut lyrics = parse_lyrics("we\n\n123");
    let fallbacks = generate_line_readings(&engine(), &mut lyrics).unwrap();
    assert!(fallbacks.is_empty());
    assert_eq!(lyrics[0].reading_text.as_deref(), Some("ウィー"));
    assert_eq!(lyrics[1].reading_text, None);
    assert_eq!(lyrics[2].reading_text.as_deref(), Some(""));
    assert_eq!(lyrics[2].reading_source, Some(ReadingSource::Generated));
    let mut unknown = parse_lyrics("zz");
    let fallbacks = generate_line_readings(&engine(), &mut unknown).unwrap();
    assert_eq!(fallbacks.len(), 1);
    assert_eq!(fallbacks[0].line_id, 0);
    assert_eq!(fallbacks[0].words, ["zz"]);
}
