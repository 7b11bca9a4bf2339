//! The command line of the batch tool: its arguments and the reading
//! generation it offers.
use vstd::prelude::*;

use crate::domain::project::{LyricLine, ReadingSource};
use crate::pronunciation::english::EnglishPronunciationEngine;
use crate::pronunciation::readings::guide_of;
use crate::pronunciation::PronunciationEngine;
use crate::text::{chars_of, extend_str, str_is_blank, string_from, strs, trim};
use crate::pronunciation::phoneme::str_equals;

verus! {

/// The usage line printed when arguments are missing.
pub open spec fn usage_text() -> Seq<char> {
    "Usage: benzaiten-cli <audio> <lyrics.txt> <wav2vec2.onnx> <output.lrc> [--language auto|en|jp] [--vocabulary <tokenizer.json>] [--vocal-separator <htdemucs.onnx>] [--generate-reading | --reading <katakana.txt>]"@
}

/// The options after the positional arguments: language, vocabulary,
/// reading file, whether to generate readings, and vocal separator model.
pub type OptionView = (Seq<char>, Option<Seq<char>>, Option<Seq<char>>, bool, Option<Seq<char>>);

/// Reads the options from argument `i` on, starting from `state`. An option
/// that takes a value needs one; anything else is refused.
pub open spec fn read_options(args: Seq<Seq<char>>, i: int, state: OptionView) -> Result<
    OptionView,
    Seq<char>,
>
    decreases args.len() - i,
{
    if i < 0 || i >= args.len() {
        Ok(state)
    } else {
        let arg = args[i];
        let has_value = i + 1 < args.len();
        if arg == "--language"@ && has_value {
            read_options(args, i + 2, (args[i + 1], state.1, state.2, state.3, state.4))
        } else if arg == "--vocabulary"@ && has_value {
            read_options(args, i + 2, (state.0, Some(args[i + 1]), state.2, state.3, state.4))
        } else if arg == "--reading"@ && has_value {
            read_options(args, i + 2, (state.0, state.1, Some(args[i + 1]), state.3, state.4))
        } else if arg == "--vocal-separator"@ && has_value {
            read_options(args, i + 2, (state.0, state.1, state.2, state.3, Some(args[i + 1])))
        } else if arg == "--generate-reading"@ {
            read_options(args, i + 1, (state.0, state.1, state.2, true, state.4))
        } else {
            Err("unknown or incomplete option: "@ + arg)
        }
    }
}

/// The parsed command line: the four positional arguments (audio, lyrics,
/// model, output) and the options, English by default; a reading file and
/// reading generation exclude each other.
pub open spec fn parse_spec(args: Seq<Seq<char>>) -> Result<OptionView, Seq<char>> {
    if args.len() < 4 {
        Err(usage_text())
    } else {
        match read_options(args, 4, ("en"@, None, None, false, None)) {
            Err(e) => Err(e),
            Ok(state) => if state.3 && state.2 is Some {
                Err("--generate-reading and --reading cannot be used together"@)
            } else {
                Ok(state)
            },
        }
    }
}

/// The command line of the batch tool.
#[derive(Debug, Clone)]
pub struct CliOptions {
    pub audio: String,
    pub lyrics: String,
    pub model: String,
    pub output: String,
    pub language: String,
    pub vocabulary: Option<String>,
    pub reading: Option<String>,
    pub generate_reading: bool,
    pub vocal_separator: Option<String>,
}

/// The view of an optional string.
pub open spec fn opt_view(o: Option<String>) -> Option<Seq<char>> {
    match o {
        Some(s) => Some(s@),
        None => None,
    }
}

/// The options part of parsed arguments.
pub open spec fn options_view(o: CliOptions) -> OptionView {
    (o.language@, opt_view(o.vocabulary), opt_view(o.reading), o.generate_reading, opt_view(o.vocal_separator))
}

/// Parses the arguments (without the program name).
pub fn parse_args(args: &Vec<String>) -> (r: Result<CliOptions, String>)
    ensures
        match r {
            Ok(o) => {
                &&& parse_spec(strs(args@)) == Ok::<OptionView, Seq<char>>(options_view(o))
                &&& o.audio@ == args@[0]@
                &&& o.lyrics@ == args@[1]@
                &&& o.model@ == args@[2]@
                &&& o.output@ == args@[3]@
            },
            Err(e) => parse_spec(strs(args@)) == Err::<OptionView, Seq<char>>(e@),
        },
{
    let ghost all = strs(args@);
    if args.len() < 4 {
        return Err(
            "Usage: benzaiten-cli <audio> <lyrics.txt> <wav2vec2.onnx> <output.lrc> [--language auto|en|jp] [--vocabulary <tokenizer.json>] [--vocal-separator <htdemucs.onnx>] [--generate-reading | --reading <katakana.txt>]".to_owned(),
        );
    }
    let mut language = "en".to_owned();
    let mut vocabulary: Option<String> = None;
    let mut reading: Option<String> = None;
    let mut generate_reading = false;
    let mut vocal_separator: Option<String> = None;
    let mut index: usize = 4;
    while index < args.len()
        invariant
            4 <= index <= args.len(),
            all == strs(args@),
            read_options(all, 4, ("en"@, None, None, false, None)) == read_options(
                all,
                index as int,
                (language@, opt_view(vocabulary), opt_view(reading), generate_reading, opt_view(vocal_separator)),
            ),
        decreases args.len() - index,
    {
        let arg = args[index].as_str();
        let has_value = index + 1 < args.len();
        if str_equals(arg, "--language") && has_value {
            language = args[index + 1].clone();
            index = index + 2;
        } else if str_equals(arg, "--vocabulary") && has_value {
            vocabulary = Some(args[index + 1].clone());
            index = index + 2;
        } else if str_equals(arg, "--reading") && has_value {
            reading = Some(args[index + 1].clone());
            index = index + 2;
        } else if str_equals(arg, "--vocal-separator") && has_value {
            vocal_separator = Some(args[index + 1].clone());
            index = index + 2;
        } else if str_equals(arg, "--generate-reading") {
            generate_reading = true;
            index = index + 1;
        } else {
            let mut m = chars_of("unknown or incomplete option: ");
            extend_str(&mut m, arg);
            return Err(string_from(&m));
        }
    }
    if generate_reading && reading.is_some() {
        return Err("--generate-reading and --reading cannot be used together".to_owned());
    }
    Ok(
        CliOptions {
            audio: args[0].clone(),
            lyrics: args[1].clone(),
            model: args[2].clone(),
            output: args[3].clone(),
            language,
            vocabulary,
            reading,
            generate_reading,
            vocal_separator,
        },
    )
}

/// `after` is `before` with the generated reading `reading`, which is kept
/// even when empty.
pub open spec fn reading_generated(after: LyricLine, before: LyricLine, reading: Seq<char>) -> bool {
    &&& after.id == before.id
    &&& after.original_text == before.original_text
    &&& after.start_ms == before.start_ms
    &&& after.end_ms == before.end_ms
    &&& after.confidence == before.confidence
    &&& after.timestamp_source == before.timestamp_source
    &&& after.reading_text is Some
    &&& after.reading_text->0@ == reading
    &&& after.reading_source == Some(ReadingSource::Generated)
}

/// A line after the batch tool's reading generation: blank lines are left
/// alone; every other line gets its guide's reading.
pub open spec fn line_generated(dictionary: Seq<char>, after: LyricLine, before: LyricLine) -> bool {
    if trim(before.original_text@).len() == 0 {
        after == before
    } else {
        guide_of(dictionary, before) is Ok && reading_generated(after, before, guide_of(dictionary, before)->Ok_0.0)
    }
}

/// The words the dictionary lacked on one line, for the user to check.
#[derive(Debug, Clone)]
pub struct Fallback {
    pub line_id: usize,
    pub words: Vec<String>,
}

/// Generates the reading of every non-blank line, as the batch tool does,
/// and reports the lines whose words the dictionary lacked. The first line
/// whose guide cannot be made stops with its error.
pub fn generate_line_readings(engine: &EnglishPronunciationEngine, lyrics: &mut Vec<LyricLine>) -> (r: Result<Vec<Fallback>, String>)
    ensures
        r is Ok ==> {
            &&& final(lyrics)@.len() == old(lyrics)@.len()
            &&& forall|k: int|
                0 <= k < old(lyrics)@.len() ==> line_generated(engine.dictionary(), #[trigger] final(lyrics)@[k], old(lyrics)@[k])
        },
        r is Err ==> exists|f: int|
            0 <= f < old(lyrics)@.len() && trim((#[trigger] old(lyrics)@[f]).original_text@).len() > 0
                && guide_of(engine.dictionary(), old(lyrics)@[f]) == Err::<
                (Seq<char>, Seq<Seq<char>>, Seq<Seq<char>>),
                Seq<char>,
            >(r->Err_0@),
{
    let ghost original = lyrics@;
    let mut fallbacks: Vec<Fallback> = Vec::new();
    let mut i: usize = 0;
    while i < lyrics.len()
        invariant
            i <= lyrics@.len(),
            lyrics@.len() == original.len(),
            original == old(lyrics)@,
            forall|k: int| 0 <= k < i ==> line_generated(engine.dictionary(), #[trigger] lyrics@[k], original[k]),
            forall|k: int| i <= k < original.len() ==> #[trigger] lyrics@[k] == original[k],
        decreases lyrics.len() - i,
    {
        if !str_is_blank(lyrics[i].original_text.as_str()) {
            match engine.generate(lyrics[i].original_text.as_str()) {
                Err(e) => {
                    return Err(e);
                },
                Ok(result) => {
                    if result.unknown_words.len() > 0 {
                        fallbacks.push(Fallback { line_id: lyrics[i].id, words: result.unknown_words });
                    }
                    let mut line = lyrics[i].duplicate();
                    line.reading_text = Some(result.reading);
                    line.reading_source = Some(ReadingSource::Generated);
                    lyrics[i] = line;
                },
            }
        }
        i = i + 1;
    }
    Ok(fallbacks)
}

} // verus!
