//! Chunk planning for the vocal separation model, which takes fixed-length
//! stereo segments that overlap and are cross-faded back together.
use vstd::prelude::*;

verus! {

/// The model's fixed input length in samples (44.1 kHz stereo, about 7.8 s).
pub const SEGMENT_SAMPLES: usize = 343_980;
/// Channels the separation model requires (stereo).
pub const SEPARATOR_CHANNELS: usize = 2;
/// Stems the model outputs (drums, bass, other, vocals).
pub const STEM_COUNT: usize = 4;
/// Index of the vocal stem among the outputs.
pub const VOCALS_STEM_INDEX: usize = 3;
/// Overlap between neighbouring chunks (a quarter of a segment).
pub const OVERLAP_SAMPLES: usize = 85_995;
/// Distance between the starts of neighbouring chunks.
pub const HOP_SAMPLES: usize = 257_985;

/// One chunk handed to the separation model: samples `start..end`, always
/// exactly one segment wide (the tail past the audio is zero-padded).
#[derive(Debug, Clone, Copy, PartialEq, Eq, Structural)]
pub struct SeparationChunk {
    pub start: usize,
    pub end: usize,
}

/// `chunks` is the plan for `total` samples: none for empty audio, one
/// chunk at 0 when the audio fits in a segment, and otherwise chunks every
/// `hop` samples until one would reach the end, which is pulled back to
/// end exactly at `total`.
pub open spec fn is_chunk_plan(chunks: Seq<SeparationChunk>, total: int, segment: int, hop: int) -> bool {
    if total == 0 {
        chunks.len() == 0
    } else if total <= segment {
        chunks == seq![SeparationChunk { start: 0, end: segment as usize }]
    } else {
        &&& chunks.len() >= 1
        &&& (chunks.len() - 1) * hop + segment >= total
        &&& chunks[chunks.len() - 1].start == total - segment
        &&& chunks[chunks.len() - 1].end == total
        &&& forall|k: int|
            0 <= k < chunks.len() - 1 ==> {
                &&& (#[trigger] chunks[k]).start == k * hop
                &&& chunks[k].end == k * hop + segment
                &&& k * hop + segment < total
            }
    }
}

/// Splits `total_samples` into segment-wide chunks started every
/// `hop_samples` (see [`is_chunk_plan`]).
pub fn plan_separation_chunks(total_samples: usize, segment_samples: usize, hop_samples: usize) -> (chunks: Vec<SeparationChunk>)
    requires
        hop_samples > 0,
        total_samples + segment_samples + hop_samples <= usize::MAX,
    ensures
        is_chunk_plan(chunks@, total_samples as int, segment_samples as int, hop_samples as int),
{
    let mut chunks: Vec<SeparationChunk> = Vec::new();
    if total_samples == 0 {
        return chunks;
    }
    if total_samples <= segment_samples {
        chunks.push(SeparationChunk { start: 0, end: segment_samples });
        assert(chunks@ == seq![SeparationChunk { start: 0, end: segment_samples }]);
        return chunks;
    }
    let mut start: usize = 0;
    assert(0 * hop_samples == 0) by (nonlinear_arith);
    loop
        invariant
            hop_samples > 0,
            total_samples + segment_samples + hop_samples <= usize::MAX,
            total_samples > segment_samples,
            start == chunks@.len() * hop_samples,
            start < total_samples + hop_samples,
            forall|k: int|
                0 <= k < chunks@.len() ==> {
                    &&& (#[trigger] chunks@[k]).start == k * hop_samples
                    &&& chunks@[k].end == k * hop_samples + segment_samples
                    &&& k * hop_samples + segment_samples < total_samples
                },
        ensures
            is_chunk_plan(chunks@, total_samples as int, segment_samples as int, hop_samples as int),
        decreases total_samples + hop_samples - start,
    {
        let end = start + segment_samples;
        let ghost k = chunks@.len() as int;
        let ghost prev = chunks@;
        if end >= total_samples {
            let last_start = total_samples - segment_samples;
            chunks.push(SeparationChunk { start: last_start, end: last_start + segment_samples });
            proof {
                assert forall|j: int| 0 <= j < chunks@.len() - 1 implies {
                    &&& (#[trigger] chunks@[j]).start == j * hop_samples
                    &&& chunks@[j].end == j * hop_samples + segment_samples
                    &&& j * hop_samples + segment_samples < total_samples
                } by {
                    assert(chunks@[j] == prev[j]);
                }
            }
            return chunks;
        }
        chunks.push(SeparationChunk { start, end });
        proof {
            assert forall|j: int| 0 <= j < k implies #[trigger] chunks@[j] == prev[j] by {}
            assert((k + 1) * hop_samples == k * hop_samples + hop_samples) by (nonlinear_arith);
        }
        start = start + hop_samples;
    }
}

/// When chunks are started no further apart than a segment is wide, the
/// planned chunks cover every sample of the audio: each position below
/// `total` lies inside some chunk.
pub proof fn chunks_cover_without_gaps(
    chunks: Seq<SeparationChunk>,
    total: usize,
    segment: usize,
    hop: usize,
    position: usize,
)
    requires
        0 < hop <= segment,
        position < total,
        is_chunk_plan(chunks, total as int, segment as int, hop as int),
    ensures
        exists|k: int| 0 <= k < chunks.len() && (#[trigger] chunks[k]).start <= position < chunks[k].end,
{
    if total <= segment {
        assert(chunks[0].start <= position < chunks[0].end);
    } else {
        let n = chunks.len() as int;
        let q = (position / hop) as int;
        assert(q * hop <= position < q * hop + hop) by (nonlinear_arith)
            requires
                hop > 0,
                q == position / hop,
        ;
        if q < n - 1 {
            assert(chunks[q].start <= position < chunks[q].end);
        } else {
            assert((n - 1) * hop <= q * hop) by (nonlinear_arith)
                requires
                    n - 1 <= q,
                    hop > 0,
            ;
            assert(chunks[n - 1].start <= position < chunks[n - 1].end);
        }
    }
}

} // verus!
