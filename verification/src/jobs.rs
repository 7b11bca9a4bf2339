//! The checks made before and during a forced alignment run: the tool
//! settings, whether the configured model files are there, the thread count
//! and cancellation. Running the pipeline lives with the caller.
use std::path::PathBuf;
use std::sync::atomic::{AtomicBool, Ordering};
use vstd::prelude::*;

use crate::domain::project::LyricLine;
use crate::forced_alignment::tokenizer::{language_choice, resolve_language, AlignmentLanguage};
use crate::text::{chars_of, extend_str, string_from};

verus! {

/// The external model files and options of a forced alignment run, as the
/// "external tools" dialog edits them.
#[derive(Debug, Clone)]
pub struct ToolSettings {
    pub model: PathBuf,
    pub vocabulary: Option<PathBuf>,
    pub language: String,
    pub threads: usize,
}

/// `PathBuf::from` on text. A path value has no view here, so nothing is
/// stated of it.
#[verifier::external_body]
fn path_from(text: &str) -> PathBuf {
    PathBuf::from(text)
}

impl Default for ToolSettings {
    /// The bundled English model, no vocabulary, English lyrics and eight
    /// threads.
    fn default() -> (s: Self)
        ensures
            s.vocabulary is None,
            s.language@ == "en"@,
            s.threads == 8,
    {
        ToolSettings {
            model: path_from("models/wav2vec2-base-960h.onnx"),
            vocabulary: None,
            language: "en".to_owned(),
            threads: 8,
        }
    }
}

/// The message when no model is configured.
pub open spec fn model_unset_error() -> Seq<char> {
    "Forced Alignmentモデルが未設定です。「外部ツール設定」→「モデル」→「参照」で、Wav2Vec2 ONNXモデルを選択してください。"@
}

/// The message when the configured model file is missing.
pub open spec fn model_missing_error(display: Seq<char>) -> Seq<char> {
    "Forced Alignmentモデルが見つかりません: "@ + display
        + "。「外部ツール設定」からファイルを選び直してください。"@
}

/// The message when Japanese lyrics have no vocabulary configured.
pub open spec fn vocabulary_unset_error() -> Seq<char> {
    "日本語tokenizerが未設定です。外部ツール設定からtokenizer.jsonを選択してください。"@
}

/// The message when the configured vocabulary file is missing.
pub open spec fn vocabulary_missing_error(display: Seq<char>) -> Seq<char> {
    "日本語tokenizerが見つかりません: "@ + display
}

/// The first problem with the model files, in the order checked: an unset
/// model, a missing model, an unknown language mode, and, for Japanese
/// lyrics, an unset or missing vocabulary. `None` when there is none.
pub open spec fn model_problem(
    has_vocabulary: bool,
    language: Result<AlignmentLanguage, Seq<char>>,
    model_empty: bool,
    model_exists: bool,
    model_display: Seq<char>,
    vocabulary_exists: bool,
    vocabulary_display: Seq<char>,
) -> Option<Seq<char>> {
    if model_empty {
        Some(model_unset_error())
    } else if !model_exists {
        Some(model_missing_error(model_display))
    } else {
        match language {
            Err(e) => Some(e),
            Ok(AlignmentLanguage::English) => None,
            Ok(AlignmentLanguage::Japanese) => if !has_vocabulary {
                Some(vocabulary_unset_error())
            } else if !vocabulary_exists {
                Some(vocabulary_missing_error(vocabulary_display))
            } else {
                None
            },
        }
    }
}

/// A message made of `prefix`, `detail` and `suffix`.
fn message(prefix: &str, detail: &str, suffix: &str) -> (r: String)
    ensures
        r@ == prefix@ + detail@ + suffix@,
{
    let mut m = chars_of(prefix);
    extend_str(&mut m, detail);
    extend_str(&mut m, suffix);
    string_from(&m)
}

impl ToolSettings {
    /// Checks that the model, and for Japanese lyrics the vocabulary, that
    /// the chosen language needs are configured and present. What the file
    /// system says of them comes in as arguments: whether the model path is
    /// empty, whether each file exists, and how each path is displayed.
    pub fn validate_model_with(
        &self,
        lyrics: &Vec<LyricLine>,
        model_empty: bool,
        model_exists: bool,
        model_display: &str,
        vocabulary_exists: bool,
        vocabulary_display: &str,
    ) -> (r: Result<(), String>)
        ensures
            match model_problem(
                self.vocabulary is Some,
                language_choice(self.language@, lyrics@),
                model_empty,
                model_exists,
                model_display@,
                vocabulary_exists,
                vocabulary_display@,
            ) {
                None => r is Ok,
                Some(e) => r is Err && r->Err_0@ == e,
            },
    {
        if model_empty {
            return Err(
                "Forced Alignmentモデルが未設定です。「外部ツール設定」→「モデル」→「参照」で、Wav2Vec2 ONNXモデルを選択してください。".to_owned(),
            );
        }
        if !model_exists {
            return Err(
                message(
                    "Forced Alignmentモデルが見つかりません: ",
                    model_display,
                    "。「外部ツール設定」からファイルを選び直してください。",
                ),
            );
        }
        match resolve_language(self.language.as_str(), lyrics) {
            Err(e) => Err(e),
            Ok(AlignmentLanguage::English) => Ok(()),
            Ok(AlignmentLanguage::Japanese) => {
                if self.vocabulary.is_none() {
                    Err(
                        "日本語tokenizerが未設定です。外部ツール設定からtokenizer.jsonを選択してください。".to_owned(),
                    )
                } else if !vocabulary_exists {
                    proof {
                        reveal_strlit("");
                    }
                    let e = message("日本語tokenizerが見つかりません: ", vocabulary_display, "");
                    assert(e@ == vocabulary_missing_error(vocabulary_display@));
                    Err(e)
                } else {
                    Ok(())
                }
            },
        }
    }
}

/// The message for a run configured with no threads.
pub open spec fn thread_count_error() -> Seq<char> {
    "Forced Alignment thread count must be at least 1"@
}

/// Checks that the run uses at least one thread.
pub fn check_threads(threads: usize) -> (r: Result<(), String>)
    ensures
        threads == 0 ==> r is Err && r->Err_0@ == thread_count_error(),
        threads > 0 ==> r is Ok,
{
    if threads == 0 {
        Err("Forced Alignment thread count must be at least 1".to_owned())
    } else {
        Ok(())
    }
}

/// The outcome of a cancellation check on the flag's value.
pub fn cancellation_result(cancelled: bool) -> (r: Result<(), String>)
    ensures
        cancelled ==> r is Err && r->Err_0@ == "processing cancelled"@,
        !cancelled ==> r is Ok,
{
    if cancelled {
        Err("processing cancelled".to_owned())
    } else {
        Ok(())
    }
}

/// Stops a run between stages once the user has cancelled it. The flag is
/// shared with the user interface, so either outcome can come back; an
/// error is always the cancellation message.
pub fn check_cancelled(cancel: &AtomicBool) -> (r: Result<(), String>)
    ensures
        r is Err ==> r->Err_0@ == "processing cancelled"@,
{
    cancellation_result(cancel.load(Ordering::Acquire))
}

} // verus!
