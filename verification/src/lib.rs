//! Lyric-to-audio synchronisation: lyric and project data, LRC rendering,
//! timing edits, transcript tokenisation and pronunciation guides.
pub mod text;
pub mod domain;
pub mod lrc;
pub mod ui;
pub mod forced_alignment;
pub mod audio;
pub mod project;
pub mod pronunciation;
pub mod process;
pub mod jobs;
pub mod metadata;
pub mod cli;
