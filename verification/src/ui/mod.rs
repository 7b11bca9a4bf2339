//! Editing helpers behind the timeline and correction panel, time
//! formatting for the player, and the timeline's action vocabulary.

/// Pure start/end time edits on lyric lines.
pub mod lyric_editor;
/// Player time display and the line active at a playback position.
pub mod player;
/// The original-lyrics and readings text boxes of the editor.
pub mod lyric_inputs;
/// Timeline drag state, actions and ruler labels.
pub mod timeline;
