//! How traces are laid out for drawing: the traces named in the plot
//! title and their colours, the sample buckets a long trace is reduced to
//! for plotting, and the frames a spectrogram is computed on.

use vstd::prelude::*;

verus! {

/// Traces with more samples than this are reduced before plotting.
pub const DECIMATE_ABOVE: usize = 20_000;

/// The number of buckets a reduced trace is drawn from.
pub const PLOT_BUCKETS: usize = 10_000;

/// Samples in one spectrogram frame.
pub const SPECTROGRAM_WINDOW: usize = 256;

/// Samples between the starts of two spectrogram frames, unless the trace
/// is so long that this would give too many frames.
pub const SPECTROGRAM_HOP: usize = 128;

/// The number of frames above which the hop is widened.
pub const MAX_SPECTROGRAM_FRAMES: usize = 2048;

/// Bucket `k` of a trace of `n` samples: equal runs of `n / PLOT_BUCKETS`
/// samples, the last bucket running to the end of the trace.
pub open spec fn spec_bucket(n: int, k: int) -> (int, int) {
    let chunk = n / (PLOT_BUCKETS as int);
    (k * chunk, if k == PLOT_BUCKETS - 1 { n } else { (k + 1) * chunk })
}

proof fn lemma_bucket_bounds(n: int, k: int)
    requires
        n > DECIMATE_ABOVE,
        0 <= k < PLOT_BUCKETS,
    ensures
        0 <= spec_bucket(n, k).0 < spec_bucket(n, k).1 <= n,
        k + 1 < PLOT_BUCKETS ==> spec_bucket(n, k).1 == spec_bucket(n, k + 1).0,
{
    let chunk = n / (PLOT_BUCKETS as int);
    assert(chunk >= 2);
    assert(chunk * (PLOT_BUCKETS as int) <= n);
    assert(0 <= k * chunk) by (nonlinear_arith)
        requires 0 <= k, chunk >= 2;
    assert((k + 1) * chunk <= chunk * (PLOT_BUCKETS as int)) by (nonlinear_arith)
        requires k + 1 <= PLOT_BUCKETS as int, chunk >= 2;
    assert(k * chunk + chunk == (k + 1) * chunk) by (nonlinear_arith);
}

/// The sample runs a trace of `n_samples` samples is reduced to for
/// plotting, each drawn by its lowest and highest sample; `None` where
/// the trace is short enough to draw whole.
pub fn plot_buckets(n_samples: usize) -> (r: Option<Vec<(usize, usize)>>)
    ensures
        (r is None) == (n_samples <= DECIMATE_ABOVE),
        r matches Some(v) ==> {
            &&& v.len() == PLOT_BUCKETS
            &&& forall|k: int| 0 <= k < PLOT_BUCKETS ==>
                (#[trigger] v@[k]).0 as int == spec_bucket(n_samples as int, k).0
                && v@[k].1 as int == spec_bucket(n_samples as int, k).1
        },
{
    if n_samples <= DECIMATE_ABOVE {
        return None;
    }
    let chunk = n_samples / PLOT_BUCKETS;
    let mut v: Vec<(usize, usize)> = Vec::new();
    let mut k: usize = 0;
    while k < PLOT_BUCKETS
        invariant
            n_samples > DECIMATE_ABOVE,
            chunk == n_samples / PLOT_BUCKETS,
            k <= PLOT_BUCKETS,
            v.len() == k,
            forall|j: int| 0 <= j < k ==>
                (#[trigger] v@[j]).0 as int == spec_bucket(n_samples as int, j).0
                && v@[j].1 as int == spec_bucket(n_samples as int, j).1,
        decreases PLOT_BUCKETS - k,
    {
        proof { lemma_bucket_bounds(n_samples as int, k as int); }
        let start = k * chunk;
        proof {
            assert(k * chunk + chunk == (k + 1) * chunk) by (nonlinear_arith);
        }
        let end = if k == PLOT_BUCKETS - 1 { n_samples } else { start + chunk };
        v.push((start, end));
        k = k + 1;
    }
    Some(v)
}

/// The buckets of a reduced trace run, without gap or overlap, from its
/// first sample to its last, and none is empty.
pub proof fn law_buckets_tile_trace(n: int)
    requires
        n > DECIMATE_ABOVE,
    ensures
        spec_bucket(n, 0).0 == 0,
        spec_bucket(n, PLOT_BUCKETS - 1).1 == n,
        forall|k: int| 0 <= k < PLOT_BUCKETS ==> #[trigger] spec_bucket(n, k).0 < spec_bucket(n, k).1,
        forall|k: int| 0 <= k < PLOT_BUCKETS - 1 ==> #[trigger] spec_bucket(n, k).1 == spec_bucket(n, k + 1).0,
{
    assert forall|k: int| 0 <= k < PLOT_BUCKETS implies #[trigger] spec_bucket(n, k).0 < spec_bucket(n, k).1 by {
        lemma_bucket_bounds(n, k);
    }
    assert forall|k: int| 0 <= k < PLOT_BUCKETS - 1 implies #[trigger] spec_bucket(n, k).1 == spec_bucket(n, k + 1).0 by {
        lemma_bucket_bounds(n, k);
    }
}

/// The hop between spectrogram frames of a trace of `len` samples: the
/// usual hop, or, where that would give more frames than the limit (the
/// width of the spectrogram image), the least hop that keeps within it.
pub open spec fn spec_hop(len: int) -> int {
    let span = len - SPECTROGRAM_WINDOW;
    if span / (SPECTROGRAM_HOP as int) + 1 > MAX_SPECTROGRAM_FRAMES {
        span / (MAX_SPECTROGRAM_FRAMES as int) + 1
    } else {
        SPECTROGRAM_HOP as int
    }
}

/// The number of spectrogram frames of a trace of `len` samples.
pub open spec fn spec_frames(len: int) -> int {
    (len - SPECTROGRAM_WINDOW) / spec_hop(len) + 1
}

/// The hop and the number of frames of the spectrogram of a trace of
/// `len` samples; `None` where the trace is shorter than one frame.
pub fn spectrogram_layout(len: usize) -> (r: Option<(usize, usize)>)
    ensures
        (r is None) == (len < SPECTROGRAM_WINDOW),
        r matches Some((hop, frames)) ==> hop == spec_hop(len as int) && frames == spec_frames(len as int),
        r matches Some((hop, frames)) ==> 1 <= frames <= MAX_SPECTROGRAM_FRAMES,
{
    if len < SPECTROGRAM_WINDOW {
        return None;
    }
    proof {
        law_spectrogram_width_limited(len as int, 0);
        law_frames_inside_trace(len as int);
    }
    let span = len - SPECTROGRAM_WINDOW;
    let mut hop = SPECTROGRAM_HOP;
    let mut frames = span / hop + 1;
    if frames > MAX_SPECTROGRAM_FRAMES {
        hop = span / MAX_SPECTROGRAM_FRAMES + 1;
        frames = span / hop + 1;
    }
    Some((hop, frames))
}

/// Every spectrogram frame lies inside the trace: there is at least one,
/// the hop is positive, and the last frame ends at or before the last
/// sample.
pub proof fn law_frames_inside_trace(len: int)
    requires
        len >= SPECTROGRAM_WINDOW,
    ensures
        spec_hop(len) >= 1,
        spec_frames(len) >= 1,
        (spec_frames(len) - 1) * spec_hop(len) + SPECTROGRAM_WINDOW <= len,
{
    let span = len - SPECTROGRAM_WINDOW;
    let h = spec_hop(len);
    assert(h >= 1);
    assert((span / h) * h <= span) by (nonlinear_arith)
        requires span >= 0, h >= 1;
}

/// A spectrogram is never wider than the frame limit, and its hop is the
/// least hop, no smaller than the usual one, that keeps it so: any smaller
/// hop of at least the usual size gives more frames than the limit.
pub proof fn law_spectrogram_width_limited(len: int, h: int)
    requires
        len >= SPECTROGRAM_WINDOW,
    ensures
        spec_frames(len) <= MAX_SPECTROGRAM_FRAMES,
        spec_hop(len) >= SPECTROGRAM_HOP,
        SPECTROGRAM_HOP <= h < spec_hop(len) ==> (len - SPECTROGRAM_WINDOW) / h + 1 > MAX_SPECTROGRAM_FRAMES,
{
    let span = len - SPECTROGRAM_WINDOW;
    let m = MAX_SPECTROGRAM_FRAMES as int;
    if span / 128 + 1 > m {
        let q = span / m;
        let hop = q + 1;
        assert(span >= 128 * 2048) by (nonlinear_arith)
            requires span / 128 >= 2048, span >= 0;
        assert(q >= 128) by (nonlinear_arith)
            requires q == span / 2048, span >= 128 * 2048;
        assert(span < hop * m) by (nonlinear_arith)
            requires q == span / m, hop == q + 1, m > 0, span >= 0;
        assert(span / hop <= m - 1) by (nonlinear_arith)
            requires span < hop * m, hop >= 1, span >= 0;
        if SPECTROGRAM_HOP <= h < hop {
            assert(q * m <= span) by (nonlinear_arith)
                requires q == span / m, m > 0, span >= 0;
            assert(h * m <= span) by (nonlinear_arith)
                requires h <= q, q * m <= span, h >= 0, m > 0;
            assert(span / h >= m) by (nonlinear_arith)
                requires h * m <= span, h >= 1, m > 0;
        }
    }
}

/// The most traces the plot title names.
pub const TITLE_NAMES: usize = 6;

/// The positions below `n` whose flag is set, in order.
pub open spec fn visible_indices(vis: Seq<bool>, n: int) -> Seq<usize>
    decreases n,
{
    if n <= 0 {
        Seq::empty()
    } else if vis[n - 1] {
        visible_indices(vis, n - 1).push((n - 1) as usize)
    } else {
        visible_indices(vis, n - 1)
    }
}

/// The first `TITLE_NAMES` elements of `s`, or all of them.
pub open spec fn title_prefix(s: Seq<usize>) -> Seq<usize> {
    if s.len() > TITLE_NAMES { s.take(TITLE_NAMES as int) } else { s }
}

/// What the plot title says of the visible traces: how many there are,
/// which are named, and whether more follow the names.
#[derive(Debug, Clone, PartialEq, Eq)]
pub struct TitleTraces {
    pub count: usize,
    pub named: Vec<usize>,
    pub more: bool,
}

proof fn lemma_visible_len(vis: Seq<bool>, n: int)
    requires
        0 <= n <= vis.len(),
    ensures
        visible_indices(vis, n).len() <= n,
        forall|k: int| 0 <= k < visible_indices(vis, n).len() ==> #[trigger] visible_indices(vis, n)[k] < n,
    decreases n,
{
    if n > 0 {
        lemma_visible_len(vis, n - 1);
    }
}

/// The plot title's account of the visible traces: their number, the
/// first `TITLE_NAMES` of them by position, and whether any follow those.
pub fn title_traces(visible: &Vec<bool>) -> (r: TitleTraces)
    ensures
        r.count == visible_indices(visible@, visible@.len() as int).len(),
        r.named@ == title_prefix(visible_indices(visible@, visible@.len() as int)),
        r.more == (visible_indices(visible@, visible@.len() as int).len() > TITLE_NAMES),
{
    let mut count: usize = 0;
    let mut named: Vec<usize> = Vec::new();
    let mut more = false;
    let mut i: usize = 0;
    while i < visible.len()
        invariant
            i <= visible.len(),
            count == visible_indices(visible@, i as int).len(),
            named@ == title_prefix(visible_indices(visible@, i as int)),
            more == (visible_indices(visible@, i as int).len() > TITLE_NAMES),
        decreases visible.len() - i,
    {
        proof { lemma_visible_len(visible@, i as int); }
        let ghost before = visible_indices(visible@, i as int);
        if visible[i] {
            count = count + 1;
            if named.len() < TITLE_NAMES {
                named.push(i);
            } else {
                more = true;
                assert(before.push(i).take(TITLE_NAMES as int) =~= before.take(TITLE_NAMES as int));
            }
        }
        i = i + 1;
    }
    TitleTraces { count, named, more }
}

/// The colour a trace is drawn in: the palette taken in turn by position.
pub open spec fn spec_trace_color(i: int) -> (u8, u8, u8) {
    let k = i % 6;
    if k == 0 {
        (50, 220, 120)
    } else if k == 1 {
        (80, 160, 255)
    } else if k == 2 {
        (255, 130, 80)
    } else if k == 3 {
        (200, 100, 255)
    } else if k == 4 {
        (255, 220, 60)
    } else {
        (100, 255, 220)
    }
}

/// The colour of the trace at position `i`.
pub fn trace_color(i: usize) -> (r: (u8, u8, u8))
    ensures
        r == spec_trace_color(i as int),
{
    let k = i % 6;
    if k == 0 {
        (50, 220, 120)
    } else if k == 1 {
        (80, 160, 255)
    } else if k == 2 {
        (255, 130, 80)
    } else if k == 3 {
        (200, 100, 255)
    } else if k == 4 {
        (255, 220, 60)
    } else {
        (100, 255, 220)
    }
}

/// The width of a saved figure, in pixels.
pub const FIGURE_WIDTH: u32 = 1920;

/// The height of a saved figure showing `panels` plots: 200 pixels a plot
/// and 80 more, but no less than 400 and no more than 4000.
pub open spec fn spec_figure_height(panels: int) -> int {
    let h = 200 * panels + 80;
    if h < 400 { 400 } else if h > 4000 { 4000 } else { h }
}

/// The size of a saved figure of the visible traces, with one more plot
/// for a spectrogram when one is shown.
pub fn figure_size(visible: usize, with_spectrogram: bool) -> (r: (u32, u32))
    ensures
        r.0 == FIGURE_WIDTH,
        r.1 == spec_figure_height(visible + if with_spectrogram { 1int } else { 0int }),
{
    let extra: usize = if with_spectrogram { 1 } else { 0 };
    if visible >= 20 {
        return (FIGURE_WIDTH, 4000);
    }
    let panels = (visible + extra) as u32;
    let h = 200 * panels + 80;
    let h = if h < 400 { 400 } else if h > 4000 { 4000 } else { h };
    (FIGURE_WIDTH, h)
}

} // verus!
