//! Pronunciation guides (katakana readings) derived from the lyrics for
//! display and practice; they never take part in forced alignment.
use vstd::prelude::*;

use phoneme::Phoneme;

/// English lyrics to katakana singing guides.
pub mod english;
/// Katakana readings of ARPAbet phoneme sequences.
pub mod katakana;
/// ARPAbet phonemes and their classification.
pub mod phoneme;
/// Pronunciation guides for the lines of a project.
pub mod readings;

verus! {

/// A pronunciation guide: the katakana reading, the phonemes it was made
/// from (where known) and the words that the dictionary lacked.
#[derive(Debug, Clone, PartialEq)]
pub struct PronunciationResult {
    pub reading: String,
    pub phonemes: Option<Vec<Phoneme>>,
    pub unknown_words: Vec<String>,
}

/// Makes a pronunciation guide from an original lyric line.
pub trait PronunciationEngine {
    fn generate(&self, original: &str) -> Result<PronunciationResult, String>;
}

} // verus!
