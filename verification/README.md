# benzaiten

Benzaiten matches a song's audio against its known lyrics (CTC forced
alignment) and writes an LRC file with a start time for every lyric line.
It also keeps an optional katakana singing guide for English lyrics, lets
the user correct timings by hand, and reads and writes music tags.

## Layout

- `src/` is the verified library. Verus checks every function there
  against its `requires` / `ensures` contract. A few small trusted items
  (calls into std's `String` and `Path`, the NFKC normalisation of
  `unicode-normalization`, and `serde_json` reading a vocabulary file's
  token map and a project file's schema version) carry contracts that Verus takes as given; where
  the outside result depends on the platform, as with `Path::file_name` and
  `Path::to_string_lossy` behind `is_bare_command`, no contract is stated
  about it:
  - `domain`: lyric lines and projects; parsing lyric text, applying and
    merging readings.
  - `lrc`: rendering a project as LRC (floor to centiseconds, blank rows
    skipped, missing or reversed times and metadata injection refused).
  - `ui`: timing edits (single lines, bulk shifts that keep spacing, timeline
    drags), playback highlighting, the reading input panes.
  - `forced_alignment`: window planning for the acoustic model, transcript
    tokenisation (English and Japanese), the trellis shape, its input checks
    and skip rule, backtracking the best path into token spans, and
    resolving token timings to line timings.
  - `audio`: output-format negotiation and vocal-separation chunk planning.
  - `project`: validation and schema migration of stored projects.
  - `pronunciation`: ARPAbet phonemes, the lookup in a CMUdict-format
    pronouncing dictionary (its text is handed in by the caller), weak
    forms and connected-speech rules, and the katakana renderer.
  - `process`, `jobs`, `metadata`, `cli`: the decisions around external
    tools, background jobs, tag writing and command-line options.
- `app/` holds what Verus does not check: the GUI, the command-line
  program, audio decoding and encoding, the ONNX models, the Viterbi search
  over floating-point scores, file I/O and JSON (de)serialisation. It reads
  the CMU pronouncing dictionary from `assets/cmudict/cmudict.dict` beside
  the program.
- `tests/` runs the library on concrete inputs.
