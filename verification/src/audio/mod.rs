//! Audio planning that the decoding, separation and encoding stages rely on.

/// Output format negotiation for re-encoding.
pub mod convert;
/// Chunk planning for vocal separation.
pub mod vocal_separation;
