//! Format choices for re-encoding lossless audio.
use vstd::prelude::*;

verus! {

/// The sample rates the AAC encoder accepts.
pub const SUPPORTED_SAMPLE_RATES: [u32; 2] = [44_100, 48_000];

/// Rounds a decoded format to one the AAC encoder supports: 1, 2 or 6
/// channels (anything else becomes stereo) and 44 100 or 48 000 Hz
/// (anything else becomes 44 100 Hz).
pub fn negotiate_format(channels: u16, sample_rate: u32) -> (r: (u16, u32))
    ensures
        r.0 == (if channels == 1 || channels == 6 { channels } else { 2 }),
        r.1 == (if sample_rate == 44_100 || sample_rate == 48_000 { sample_rate } else { 44_100 }),
{
    let channels = if channels == 1 {
        1
    } else if channels == 6 {
        6
    } else {
        2
    };
    let sample_rate = if sample_rate == 44_100 || sample_rate == 48_000 {
        sample_rate
    } else {
        44_100
    };
    (channels, sample_rate)
}

} // verus!
