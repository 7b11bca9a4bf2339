//! Standard LRC rendering.

/// Renders a project as standard LRC text.
pub mod writer;
