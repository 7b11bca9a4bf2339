//! The project document: lyric lines with timing, music metadata and the
//! audio file it belongs to.
use std::path::PathBuf;
use vstd::prelude::*;

verus! {

/// File system paths are carried through the library unchanged.
#[verifier::external_type_specification]
#[verifier::external_body]
pub struct ExPathBuf(PathBuf);

/// `PathBuf::clone`: an equal copy of the path.
pub assume_specification[ <PathBuf as Clone>::clone ](p: &PathBuf) -> (r: PathBuf)
    ensures
        r == *p,
;

/// `PathBuf::new`: the empty path.
#[verifier::external_body]
pub fn empty_path() -> PathBuf {
    PathBuf::new()
}

/// The schema version written by this library.
pub const CURRENT_SCHEMA_VERSION: u32 = 3;

/// Where a line's timing came from.
#[derive(Debug, Clone, Copy, PartialEq, Eq, Structural)]
pub enum TimestampSource {
    ForcedAlignment,
    /// Retained for schema-v1 projects created by the former automatic pipeline.
    LegacyAuto,
    Manual,
    Interpolated,
}

/// Where a line's pronunciation guide came from.
#[derive(Debug, Clone, Copy, PartialEq, Eq, Structural)]
pub enum ReadingSource {
    Generated,
    Manual,
}

/// One lyric line with its optional reading and timing.
///
/// `confidence` holds the IEEE-754 binary32 bit pattern of the alignment
/// confidence (`f32::to_bits`); the library only copies, clears and range
/// checks it.
#[derive(Debug, Clone, PartialEq)]
pub struct LyricLine {
    pub id: usize,
    pub original_text: String,
    pub reading_text: Option<String>,
    pub reading_source: Option<ReadingSource>,
    pub start_ms: Option<u64>,
    pub end_ms: Option<u64>,
    pub confidence: Option<u32>,
    pub timestamp_source: Option<TimestampSource>,
}

/// Music information stored beside the lyrics.
#[derive(Debug, Clone, PartialEq, Eq)]
pub struct MusicMetadata {
    pub album: String,
    pub album_artist: String,
    pub genre: String,
    pub year: Option<u32>,
    pub track_number: Option<u32>,
    pub disc_number: Option<u32>,
    pub artwork_path: Option<PathBuf>,
}

/// The unit saved as project JSON.
#[derive(Debug, Clone, PartialEq)]
pub struct Project {
    pub schema_version: u32,
    pub title: String,
    pub artist: String,
    pub metadata: MusicMetadata,
    pub audio_path: PathBuf,
    pub lyrics: Vec<LyricLine>,
}

impl Default for MusicMetadata {
    fn default() -> (m: Self)
        ensures
            m.album@.len() == 0,
            m.album_artist@.len() == 0,
            m.genre@.len() == 0,
            m.year.is_none(),
            m.track_number.is_none(),
            m.disc_number.is_none(),
            m.artwork_path.is_none(),
    {
        MusicMetadata {
            album: String::new(),
            album_artist: String::new(),
            genre: String::new(),
            year: None,
            track_number: None,
            disc_number: None,
            artwork_path: None,
        }
    }
}

impl Default for Project {
    fn default() -> (p: Self)
        ensures
            p.schema_version == CURRENT_SCHEMA_VERSION,
            p.title@.len() == 0,
            p.artist@.len() == 0,
            p.metadata.album@.len() == 0,
            p.metadata.album_artist@.len() == 0,
            p.metadata.genre@.len() == 0,
            p.metadata.year.is_none(),
            p.metadata.track_number.is_none(),
            p.metadata.disc_number.is_none(),
            p.metadata.artwork_path.is_none(),
            p.lyrics@.len() == 0,
    {
        Project {
            schema_version: CURRENT_SCHEMA_VERSION,
            title: String::new(),
            artist: String::new(),
            metadata: MusicMetadata::default(),
            audio_path: empty_path(),
            lyrics: Vec::new(),
        }
    }
}

/// Copy of an optional string.
pub fn clone_opt_string(s: &Option<String>) -> (out: Option<String>)
    ensures
        out == *s,
{
    match s {
        Some(t) => Some(t.clone()),
        None => None,
    }
}

impl LyricLine {
    /// A line with the given id and text and no reading or timing.
    pub fn new(id: usize, original_text: String) -> (line: Self)
        ensures
            line.id == id,
            line.original_text == original_text,
            line.reading_text.is_none(),
            line.reading_source.is_none(),
            line.start_ms.is_none(),
            line.end_ms.is_none(),
            line.confidence.is_none(),
            line.timestamp_source.is_none(),
    {
        LyricLine {
            id,
            original_text,
            reading_text: None,
            reading_source: None,
            start_ms: None,
            end_ms: None,
            confidence: None,
            timestamp_source: None,
        }
    }

    /// A field-for-field copy of this line.
    pub fn duplicate(&self) -> (out: Self)
        ensures
            out == *self,
    {
        LyricLine {
            id: self.id,
            original_text: self.original_text.clone(),
            reading_text: clone_opt_string(&self.reading_text),
            reading_source: self.reading_source,
            start_ms: self.start_ms,
            end_ms: self.end_ms,
            confidence: self.confidence,
            timestamp_source: self.timestamp_source,
        }
    }
}

/// A copy of every line, in order.
pub fn duplicate_lines(lines: &[LyricLine]) -> (out: Vec<LyricLine>)
    ensures
        out@ == lines@,
{
    let mut out: Vec<LyricLine> = Vec::new();
    let mut i: usize = 0;
    while i < lines.len()
        invariant
            i <= lines.len(),
            out@ == lines@.take(i as int),
        decreases lines.len() - i,
    {
        out.push(lines[i].duplicate());
        i = i + 1;
        assert(lines@.take(i as int) == lines@.take(i - 1).push(lines@[i - 1]));
    }
    assert(lines@.take(lines.len() as int) == lines@);
    out
}

} // verus!
