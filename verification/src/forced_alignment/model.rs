//! Planning of the overlapping inference windows the acoustic model is run
//! on.
use vstd::prelude::*;

verus! {

/// Inference window length in seconds. Neighbouring windows overlap so that
/// the frames near a window's edge, where the model lacks context, can be
/// discarded in favour of the neighbour's centre.
pub const WINDOW_SECONDS: usize = 20;
/// Distance between the starts of neighbouring windows, in seconds.
pub const STRIDE_SECONDS: usize = 15;

/// One inference window: samples `start..end` go to the model, and
/// `left_trim`/`right_trim` samples at either edge are discarded from its
/// output for lack of context.
#[derive(Debug, Clone, Copy, PartialEq, Eq, Structural)]
pub struct Window {
    pub start: usize,
    pub end: usize,
    pub left_trim: usize,
    pub right_trim: usize,
}

/// The smaller of two integers.
pub open spec fn min_int(a: int, b: int) -> int {
    if a < b { a } else { b }
}

/// `windows` is the plan for `total` samples: window `k` starts at
/// `k * stride`, ends `window` samples later or at the end of the audio,
/// and the last window is the first that reaches the end. Only the first
/// window keeps its left edge and only the last its right edge; a trimmed
/// edge loses `context` samples (or what is left of the window).
pub open spec fn is_window_plan(
    windows: Seq<Window>,
    total: int,
    window: int,
    stride: int,
    context: int,
) -> bool {
    if total == 0 {
        windows.len() == 0
    } else {
        &&& windows.len() >= 1
        &&& (windows.len() - 1) * stride + window >= total
        &&& forall|k: int|
            0 <= k < windows.len() ==> {
                let w = #[trigger] windows[k];
                let last = k == windows.len() - 1;
                &&& w.start == k * stride
                &&& w.end == min_int(k * stride + window, total)
                &&& !last ==> k * stride + window < total
                &&& w.left_trim == (if k == 0 { 0 } else { min_int(context, w.end - w.start) })
                &&& w.right_trim == (if last { 0 } else { min_int(
                    context,
                    w.end - w.start - w.left_trim,
                ) })
            }
    }
}

/// The start of window `k` when windows start every `stride` samples.
pub open spec fn window_start(k: int, stride: int) -> int {
    k * stride
}

/// Every window that stops short of the end of the audio is followed by one
/// that starts within the audio. This holds whenever the stride is at most
/// the window length; a longer stride is accepted only where it does not
/// skip past the end.
pub open spec fn next_start_in_audio(total: int, window: int, stride: int) -> bool {
    forall|k: int|
        0 <= k && #[trigger] window_start(k, stride) + window < total ==> window_start(k, stride) + stride <= total
}

/// Splits `total_samples` into windows of `window_samples`, started every
/// `stride_samples`, overlapping their neighbours by `context_samples` on
/// each trimmed side (see [`is_window_plan`]).
pub fn plan_windows(
    total_samples: usize,
    window_samples: usize,
    stride_samples: usize,
    context_samples: usize,
) -> (windows: Vec<Window>)
    requires
        stride_samples > 0 || total_samples <= window_samples,
        next_start_in_audio(total_samples as int, window_samples as int, stride_samples as int),
        total_samples + window_samples <= usize::MAX,
    ensures
        is_window_plan(
            windows@,
            total_samples as int,
            window_samples as int,
            stride_samples as int,
            context_samples as int,
        ),
{
    let mut windows: Vec<Window> = Vec::new();
    if total_samples == 0 {
        return windows;
    }
    let mut start: usize = 0;
    assert(0 * stride_samples == 0) by (nonlinear_arith);
    loop
        invariant
            stride_samples > 0 || total_samples <= window_samples,
            next_start_in_audio(total_samples as int, window_samples as int, stride_samples as int),
            total_samples + window_samples <= usize::MAX,
            total_samples > 0,
            start == windows@.len() * stride_samples,
            start <= total_samples,
            windows@.len() > 0 ==> stride_samples > 0,
            forall|k: int|
                0 <= k < windows@.len() ==> {
                    let w = #[trigger] windows@[k];
                    &&& w.start == k * stride_samples
                    &&& w.end == k * stride_samples + window_samples
                    &&& k * stride_samples + window_samples < total_samples
                    &&& w.left_trim == (if k == 0 { 0 } else { min_int(
                        context_samples as int,
                        w.end - w.start,
                    ) })
                    &&& w.right_trim == min_int(
                        context_samples as int,
                        w.end - w.start - w.left_trim,
                    )
                },
        ensures
            is_window_plan(
                windows@,
                total_samples as int,
                window_samples as int,
                stride_samples as int,
                context_samples as int,
            ),
        decreases total_samples - start,
    {
        let end = if start + window_samples < total_samples {
            start + window_samples
        } else {
            total_samples
        };
        let is_first = start == 0;
        let is_last = end == total_samples;
        let left_trim = if is_first {
            0
        } else if context_samples < end - start {
            context_samples
        } else {
            end - start
        };
        let right_trim = if is_last {
            0
        } else if context_samples < end - start - left_trim {
            context_samples
        } else {
            end - start - left_trim
        };
        let ghost k = windows@.len() as int;
        proof {
            if k == 0 {
                assert(k * stride_samples == 0) by (nonlinear_arith)
                    requires
                        k == 0,
                ;
            }
            if k > 0 {
                assert(stride_samples > 0);
                assert(k * stride_samples > 0) by (nonlinear_arith)
                    requires
                        k > 0,
                        stride_samples > 0,
                ;
            }
        }
        let ghost prev = windows@;
        windows.push(Window { start, end, left_trim, right_trim });
        proof {
            assert forall|j: int| 0 <= j < k implies #[trigger] windows@[j] == prev[j] by {}
            assert(windows@[k] == Window { start, end, left_trim, right_trim });
            assert(start == k * stride_samples);
            assert(windows@[k].start == k * stride_samples);
            assert(windows@[k].left_trim == (if k == 0 { 0 } else { min_int(context_samples as int, end - start) }));
            assert(is_last ==> windows@[k].end == min_int(k * stride_samples + window_samples, total_samples as int));
            assert(is_last ==> windows@[k].right_trim == 0);
        }
        if is_last {
            proof {
                assert forall|j: int| 0 <= j < windows@.len() implies {
                    let w = #[trigger] windows@[j];
                    let last = j == windows@.len() - 1;
                    &&& w.start == j * stride_samples
                    &&& w.end == min_int(j * stride_samples + window_samples, total_samples as int)
                    &&& !last ==> j * stride_samples + window_samples < total_samples
                    &&& w.left_trim == (if j == 0 { 0 } else { min_int(context_samples as int, w.end - w.start) })
                    &&& w.right_trim == (if last { 0 } else { min_int(
                        context_samples as int,
                        w.end - w.start - w.left_trim,
                    ) })
                } by {
                    if j < k {
                        assert(windows@[j] == prev[j]);
                    }
                }
            }
            return windows;
        }
        proof {
            assert((k + 1) * stride_samples == k * stride_samples + stride_samples) by (nonlinear_arith);
            assert(window_start(k, stride_samples as int) + window_samples < total_samples);
            assert(stride_samples > 0) by {
                if stride_samples == 0 {
                    assert(k * stride_samples == 0) by (nonlinear_arith)
                        requires
                            stride_samples == 0,
                    ;
                }
            }
        }
        start = start + stride_samples;
    }
}

/// The samples of window `w` that are kept: `start + left_trim` up to
/// `end - right_trim`.
pub open spec fn kept_start(w: Window) -> int {
    w.start + w.left_trim
}

/// End of the kept samples of `w`.
pub open spec fn kept_end(w: Window) -> int {
    w.end - w.right_trim
}

/// When the stride plus one context on each side is exactly the window
/// length, the kept parts of the planned windows tile `0..total` without
/// gap or overlap: the first starts at 0, each ends where the next starts,
/// none is inverted, and the last ends at `total`.
pub proof fn windows_tile_without_gaps(
    windows: Seq<Window>,
    total: int,
    window: int,
    stride: int,
    context: int,
)
    requires
        total > 0,
        stride >= 0,
        context >= 0,
        window == stride + 2 * context,
        is_window_plan(windows, total, window, stride, context),
    ensures
        kept_start(windows[0]) == 0,
        kept_end(windows[windows.len() - 1]) == total,
        forall|k: int| 0 <= k < windows.len() ==> kept_start(#[trigger] windows[k]) <= kept_end(windows[k]),
        forall|k: int|
            0 <= k < windows.len() - 1 ==> kept_end(#[trigger] windows[k]) == kept_start(windows[k + 1]),
{
    assert(windows[0].start == 0 * stride);
    assert(0 * stride == 0) by (nonlinear_arith);
    assert forall|k: int| 0 <= k < windows.len() - 1 implies kept_end(#[trigger] windows[k])
        == kept_start(windows[k + 1]) by {
        let w = windows[k];
        let v = windows[k + 1];
        if stride == 0 {
            let n = windows.len() - 1;
            assert(k * stride == 0 && n * stride == 0) by (nonlinear_arith)
                requires
                    stride == 0,
            ;
        }
        assert((k + 1) * stride == k * stride + stride) by (nonlinear_arith);
        assert(w.end == k * stride + window);
        if k + 1 < windows.len() - 1 {
            assert(v.end == (k + 1) * stride + window);
        }
        assert(v.end - v.start > 2 * context);
    }
    assert forall|k: int| 0 <= k < windows.len() implies kept_start(#[trigger] windows[k])
        <= kept_end(windows[k]) by {
        let w = windows[k];
        assert(k * stride >= 0) by (nonlinear_arith)
            requires
                k >= 0,
                stride >= 0,
        ;
    }
}

} // verus!
