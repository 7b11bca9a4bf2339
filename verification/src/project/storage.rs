//! The rules a stored project must satisfy, the schema versions that can be
//! read, and the migration of the first schema to the current one.
use std::path::PathBuf;
use vstd::prelude::*;

use crate::domain::project::{
    LyricLine, MusicMetadata, Project, TimestampSource, CURRENT_SCHEMA_VERSION,
};
use crate::text::{
    chars_of, contains_line_break, decimal, extend_str, has_line_break, push_decimal, string_from,
};

verus! {

/// The bit pattern of an `f32` that is finite and within `0.0..=1.0`:
/// `+0.0` up to `1.0` (patterns up to `0x3f80_0000`) or `-0.0`.
pub open spec fn valid_confidence_bits(bits: u32) -> bool {
    bits <= 0x3f80_0000 || bits == 0x8000_0000
}

/// The message for an unsupported schema version.
pub open spec fn schema_error(version: nat) -> Seq<char> {
    "unsupported project schema version "@ + decimal(version) + "; expected 3"@
}

/// The problem with line `k` given the lines before it, if any: a repeated
/// id, an end before the start, an invalid confidence, or a line break in
/// the text or the reading, checked in that order.
pub open spec fn line_problem(lines: Seq<LyricLine>, k: int) -> Option<Seq<char>> {
    let line = lines[k];
    let id = line.id as nat;
    if exists|j: int| 0 <= j < k && #[trigger] lines[j].id == line.id {
        Some("duplicate lyric line id: "@ + decimal(id))
    } else if line.start_ms.is_some() && line.end_ms.is_some() && line.end_ms->0 < line.start_ms->0 {
        Some("lyric line "@ + decimal(id) + " ends before it starts"@)
    } else if line.confidence.is_some() && !valid_confidence_bits(line.confidence->0) {
        Some("lyric line "@ + decimal(id) + " has an invalid confidence"@)
    } else if has_line_break(line.original_text@) {
        Some("lyric line "@ + decimal(id) + " contains a newline"@)
    } else if line.reading_text.is_some() && has_line_break(line.reading_text->0@) {
        Some("lyric line "@ + decimal(id) + " reading contains a newline"@)
    } else {
        None
    }
}

/// The first problem among the first `n` lines.
pub open spec fn first_line_problem(lines: Seq<LyricLine>, n: int) -> Option<Seq<char>>
    decreases n,
{
    if n <= 0 {
        None
    } else if first_line_problem(lines, n - 1).is_some() {
        first_line_problem(lines, n - 1)
    } else {
        line_problem(lines, n - 1)
    }
}

/// The first problem with a project: a schema version other than the
/// current one, then the first problem with its lines.
pub open spec fn project_problem(project: Project) -> Option<Seq<char>> {
    if project.schema_version != CURRENT_SCHEMA_VERSION {
        Some(schema_error(project.schema_version as nat))
    } else {
        first_line_problem(project.lyrics@, project.lyrics@.len() as int)
    }
}

proof fn lemma_first_problem_sticks(lines: Seq<LyricLine>, k: int, n: int)
    requires
        0 <= k < n,
        first_line_problem(lines, k).is_none(),
        line_problem(lines, k).is_some(),
    ensures
        first_line_problem(lines, n) == line_problem(lines, k),
    decreases n - k,
{
    if n > k + 1 {
        lemma_first_problem_sticks(lines, k, n - 1);
    }
}

fn id_message(prefix: &str, id: usize, suffix: &str) -> (e: String)
    ensures
        e@ == prefix@ + decimal(id as nat) + suffix@,
{
    let mut out: Vec<char> = Vec::new();
    extend_str(&mut out, prefix);
    push_decimal(&mut out, id as u64);
    extend_str(&mut out, suffix);
    string_from(&out)
}

/// Checks a project before it is saved or after it is loaded.
pub fn validate(project: &Project) -> (r: Result<(), String>)
    ensures
        match project_problem(*project) {
            Some(e) => r.is_err() && r->Err_0@ == e,
            None => r.is_ok(),
        },
{
    if project.schema_version != CURRENT_SCHEMA_VERSION {
        let e = id_message("unsupported project schema version ", project.schema_version as usize, "; expected 3");
        return Err(e);
    }
    let ghost lines = project.lyrics@;
    let mut k: usize = 0;
    while k < project.lyrics.len()
        invariant
            k <= lines.len(),
            lines == project.lyrics@,
            project.schema_version == CURRENT_SCHEMA_VERSION,
            first_line_problem(lines, k as int).is_none(),
        decreases lines.len() - k,
    {
        let line = &project.lyrics[k];
        let mut j: usize = 0;
        while j < k
            invariant
                j <= k < lines.len(),
                lines == project.lyrics@,
                line == lines[k as int],
                project.schema_version == CURRENT_SCHEMA_VERSION,
                first_line_problem(lines, k as int).is_none(),
                forall|g: int| 0 <= g < j ==> lines[g].id != line.id,
            decreases k - j,
        {
            if project.lyrics[j].id == line.id {
                proof {
                    assert(lines[j as int].id == lines[k as int].id);
                    reveal_strlit("");
                    lemma_first_problem_sticks(lines, k as int, lines.len() as int);
                    assert("duplicate lyric line id: "@ + decimal(line.id as nat) + ""@ =~= "duplicate lyric line id: "@ + decimal(line.id as nat));
                }
                return Err(id_message("duplicate lyric line id: ", line.id, ""));
            }
            j = j + 1;
        }
        if let (Some(start), Some(end)) = (line.start_ms, line.end_ms) {
            if end < start {
                proof {
                    lemma_first_problem_sticks(lines, k as int, lines.len() as int);
                }
                return Err(id_message("lyric line ", line.id, " ends before it starts"));
            }
        }
        if let Some(bits) = line.confidence {
            if !(bits <= 0x3f80_0000 || bits == 0x8000_0000) {
                proof {
                    lemma_first_problem_sticks(lines, k as int, lines.len() as int);
                }
                return Err(id_message("lyric line ", line.id, " has an invalid confidence"));
            }
        }
        if contains_line_break(&chars_of(line.original_text.as_str())) {
            proof {
                lemma_first_problem_sticks(lines, k as int, lines.len() as int);
            }
            return Err(id_message("lyric line ", line.id, " contains a newline"));
        }
        if let Some(reading) = &line.reading_text {
            if contains_line_break(&chars_of(reading.as_str())) {
                proof {
                    lemma_first_problem_sticks(lines, k as int, lines.len() as int);
                }
                return Err(id_message("lyric line ", line.id, " reading contains a newline"));
            }
        }
        k = k + 1;
    }
    Ok(())
}

/// Timing sources of the first schema.
#[derive(Debug, Clone, Copy, PartialEq, Eq, Structural)]
pub enum TimestampSourceV1 {
    Auto,
    Manual,
    Interpolated,
}

/// A lyric line as the first schema stored it.
#[derive(Debug, Clone, PartialEq)]
pub struct LyricLineV1 {
    pub id: usize,
    pub text: String,
    pub start_ms: Option<u64>,
    pub end_ms: Option<u64>,
    /// IEEE-754 binary32 bit pattern of the confidence.
    pub confidence: Option<u32>,
    pub source: Option<TimestampSourceV1>,
}

/// A project as the first schema stored it.
#[derive(Debug)]
pub struct ProjectV1 {
    pub title: String,
    pub artist: String,
    pub audio_path: PathBuf,
    pub lyrics: Vec<LyricLineV1>,
}

/// The current source for a first-schema source.
pub open spec fn migrated_source(source: Option<TimestampSourceV1>) -> Option<TimestampSource> {
    match source {
        Some(TimestampSourceV1::Auto) => Some(TimestampSource::LegacyAuto),
        Some(TimestampSourceV1::Manual) => Some(TimestampSource::Manual),
        Some(TimestampSourceV1::Interpolated) => Some(TimestampSource::Interpolated),
        None => None,
    }
}

/// `line` is `old` carried over: same id, text and timing, no reading.
pub open spec fn migrated_line(line: LyricLine, old: LyricLineV1) -> bool {
    &&& line.id == old.id
    &&& line.original_text == old.text
    &&& line.reading_text.is_none()
    &&& line.reading_source.is_none()
    &&& line.start_ms == old.start_ms
    &&& line.end_ms == old.end_ms
    &&& line.confidence == old.confidence
    &&& line.timestamp_source == migrated_source(old.source)
}

/// Upgrades a first-schema project: the text becomes the original text,
/// timing and confidence are kept, automatic timing becomes `LegacyAuto`,
/// and the music metadata starts empty.
pub fn migrate_v1(project: ProjectV1) -> (p: Project)
    ensures
        p.schema_version == CURRENT_SCHEMA_VERSION,
        p.title == project.title,
        p.artist == project.artist,
        p.audio_path == project.audio_path,
        p.metadata.album@.len() == 0,
        p.metadata.album_artist@.len() == 0,
        p.metadata.genre@.len() == 0,
        p.metadata.year.is_none(),
        p.metadata.track_number.is_none(),
        p.metadata.disc_number.is_none(),
        p.metadata.artwork_path.is_none(),
        p.lyrics@.len() == project.lyrics@.len(),
        forall|i: int| 0 <= i < p.lyrics@.len() ==> migrated_line(#[trigger] p.lyrics@[i], project.lyrics@[i]),
{
    let mut lyrics: Vec<LyricLine> = Vec::new();
    let mut i: usize = 0;
    while i < project.lyrics.len()
        invariant
            i <= project.lyrics@.len(),
            lyrics@.len() == i,
            forall|k: int| 0 <= k < i ==> migrated_line(#[trigger] lyrics@[k], project.lyrics@[k]),
        decreases project.lyrics.len() - i,
    {
        let old = &project.lyrics[i];
        let source = match old.source {
            Some(TimestampSourceV1::Auto) => Some(TimestampSource::LegacyAuto),
            Some(TimestampSourceV1::Manual) => Some(TimestampSource::Manual),
            Some(TimestampSourceV1::Interpolated) => Some(TimestampSource::Interpolated),
            None => None,
        };
        lyrics.push(LyricLine {
            id: old.id,
            original_text: old.text.clone(),
            reading_text: None,
            reading_source: None,
            start_ms: old.start_ms,
            end_ms: old.end_ms,
            confidence: old.confidence,
            timestamp_source: source,
        });
        i = i + 1;
    }
    Project {
        schema_version: CURRENT_SCHEMA_VERSION,
        title: project.title,
        artist: project.artist,
        metadata: MusicMetadata::default(),
        audio_path: project.audio_path,
        lyrics,
    }
}

/// How a stored document is read, by its schema version.
#[derive(Debug, Clone, Copy, PartialEq, Eq, Structural)]
pub enum SchemaPlan {
    /// Read with the first schema and migrate.
    MigrateV1,
    /// Read with the current layout, then mark as current (the music
    /// metadata defaults to empty).
    UpgradeV2,
    /// Read as is.
    Current,
}

/// The message when a document has no schema version.
pub open spec fn missing_version_error(source: Seq<char>) -> Seq<char> {
    "project file "@ + source + " has no schema version"@
}

/// `r` is how a document with schema version `version` is read.
pub open spec fn plan_for(version: Option<u64>, source: Seq<char>, r: Result<SchemaPlan, String>) -> bool {
    match version {
        None => r.is_err() && r->Err_0@ == missing_version_error(source),
        Some(1) => r == Ok::<SchemaPlan, String>(SchemaPlan::MigrateV1),
        Some(2) => r == Ok::<SchemaPlan, String>(SchemaPlan::UpgradeV2),
        Some(3) => r == Ok::<SchemaPlan, String>(SchemaPlan::Current),
        Some(v) => r.is_err() && r->Err_0@ == schema_error(v as nat),
    }
}

/// Chooses how to read a document from its `schema_version` field (`None`
/// when missing or not an unsigned integer); `source` names the file.
pub fn schema_plan(version: Option<u64>, source: &str) -> (r: Result<SchemaPlan, String>)
    ensures
        plan_for(version, source@, r),
{
    match version {
        None => {
            let mut out: Vec<char> = Vec::new();
            extend_str(&mut out, "project file ");
            extend_str(&mut out, source);
            extend_str(&mut out, " has no schema version");
            Err(string_from(&out))
        },
        Some(1) => Ok(SchemaPlan::MigrateV1),
        Some(2) => Ok(SchemaPlan::UpgradeV2),
        Some(3) => Ok(SchemaPlan::Current),
        Some(v) => {
            let mut out: Vec<char> = Vec::new();
            extend_str(&mut out, "unsupported project schema version ");
            push_decimal(&mut out, v);
            extend_str(&mut out, "; expected 3");
            Err(string_from(&out))
        },
    }
}

/// What `serde_json` makes of a project file's bytes: the parse error's
/// message, or the `schema_version` member when it is an unsigned integer
/// (`None` when it is missing or not one).
pub uninterp spec fn json_schema_version(bytes: Seq<u8>) -> Result<Option<u64>, Seq<char>>;

/// `serde_json::from_slice` into a `serde_json::Value`, then
/// `Value::get("schema_version")` and `Value::as_u64`. The result is a
/// function of the bytes alone (named [`json_schema_version`]);
/// `serde_json`'s grammar and its error messages are not restated.
#[verifier::external_body]
fn read_schema_version(bytes: &[u8]) -> (r: Result<Option<u64>, String>)
    ensures
        match r {
            Ok(v) => json_schema_version(bytes@) == Ok::<Option<u64>, Seq<char>>(v),
            Err(e) => json_schema_version(bytes@) == Err::<Option<u64>, Seq<char>>(e@),
        },
{
    let document: serde_json::Value = serde_json::from_slice(bytes).map_err(|error| error.to_string())?;
    Ok(document.get("schema_version").and_then(serde_json::Value::as_u64))
}

/// The message for a project file that is not JSON.
pub open spec fn project_parse_error(source: Seq<char>, message: Seq<char>) -> Seq<char> {
    "could not parse project file "@ + source + ": "@ + message
}

/// `r` is how a document whose version was read as `parsed` is read.
pub open spec fn plan_for_parsed(parsed: Result<Option<u64>, Seq<char>>, source: Seq<char>, r: Result<SchemaPlan, String>) -> bool {
    match parsed {
        Err(message) => r is Err && r->Err_0@ == project_parse_error(source, message),
        Ok(version) => plan_for(version, source, r),
    }
}

/// Chooses how to read a document from the outcome of reading its
/// schema version: a parse failure is reported, otherwise
/// [`schema_plan`] decides.
pub fn schema_plan_from_parsed(parsed: Result<Option<u64>, String>, source: &str) -> (r: Result<SchemaPlan, String>)
    ensures
        plan_for_parsed(
            match parsed {
                Ok(v) => Ok::<Option<u64>, Seq<char>>(v),
                Err(e) => Err::<Option<u64>, Seq<char>>(e@),
            },
            source@,
            r,
        ),
{
    match parsed {
        Err(message) => {
            let mut text: Vec<char> = Vec::new();
            extend_str(&mut text, "could not parse project file ");
            extend_str(&mut text, source);
            extend_str(&mut text, ": ");
            extend_str(&mut text, message.as_str());
            Err(string_from(&text))
        },
        Ok(version) => schema_plan(version, source),
    }
}

/// Chooses how to read the project file whose bytes are `bytes`, by its
/// schema version; `source` names the file in errors.
pub fn schema_plan_of(bytes: &[u8], source: &str) -> (r: Result<SchemaPlan, String>)
    ensures
        plan_for_parsed(json_schema_version(bytes@), source@, r),
{
    let parsed = read_schema_version(bytes);
    schema_plan_from_parsed(parsed, source)
}

/// Marks a project read with the second schema as current.
pub fn upgrade_v2(project: Project) -> (p: Project)
    ensures
        p == (Project { schema_version: CURRENT_SCHEMA_VERSION, ..project }),
{
    Project { schema_version: CURRENT_SCHEMA_VERSION, ..project }
}

} // verus!
