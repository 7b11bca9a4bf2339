//! Core lyric and project data, free of GUI and acoustic-model concerns.

/// Turning free lyric text into lines and applying reading files.
pub mod lyrics;
/// The project, lyric line and metadata types and their schema version.
pub mod project;
