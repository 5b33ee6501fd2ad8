//! Histogram layout.
//!
//! A single distribution is binned into equal-width bins spanning its
//! `[min, max]` range; the bin of a value is `(value - min) * bins / range`
//! clamped to the last bin.  Bar height is proportional to the bin count,
//! or to the density `count / (n * bin_width)` when density mode is on.
//! Binning is exact: the bin counts sum to the number of input values, and
//! every value lands in a bin index below the bin count.

use vstd::prelude::*;
use crate::canvas::{count_circles, count_paths, count_rects, doc_wf, is_rect, render, render_doc, Prim};
use crate::charts::{flat_input, flat_values, is_seq_max, is_seq_min, Chart};
use crate::models::{valid_value, GraphRequest, MAX_POINTS};
use crate::num::fmt_milli_1dp;
use crate::num::u64_str;
use crate::scale::{max_of, min_of};

verus! {

broadcast use {crate::canvas::lemma_counts_push, crate::canvas::lemma_counts_concat};

/// Histogram configuration: how many bins, and whether bar heights show
/// densities instead of counts.
pub struct HistogramChart {
    pub bins: usize,
    pub show_density: bool,
}

impl Default for HistogramChart {
    /// Ten bins, plain counts.
    fn default() -> (r: Self)
        ensures
            r.bins == 10,
            !r.show_density,
    {
        HistogramChart { bins: 10, show_density: false }
    }
}

/// The bin a value falls into: `(v - min) * bins / (max - min)`, clamped to
/// the last bin; everything falls into bin 0 when the range is degenerate.
pub open spec fn bin_index_spec(v: int, vmin: int, vmax: int, bins: int) -> int {
    if vmax <= vmin {
        0
    } else {
        let raw = (v - vmin) * bins / (vmax - vmin);
        if raw >= bins {
            bins - 1
        } else {
            raw
        }
    }
}

/// Computes the bin of a value.  The result always lies below `bins`.
pub fn bin_index(v: i64, vmin: i64, vmax: i64, bins: usize) -> (r: usize)
    requires
        valid_value(v as int),
        valid_value(vmin as int),
        valid_value(vmax as int),
        vmin <= v <= vmax,
        1 <= bins <= 100_000,
    ensures
        r == bin_index_spec(v as int, vmin as int, vmax as int, bins as int),
        r < bins,
{
    if vmax <= vmin {
        0
    } else {
        proof {
            let a = (v - vmin) as int;
            let b = bins as int;
            let d = (vmax - vmin) as int;
            assert(0 <= a * b <= 200_000_000_000_000_000) by (nonlinear_arith)
                requires
                    0 <= a <= 2_000_000_000_000,
                    0 <= b <= 100_000,
            ;
            assert(a * b <= d * b) by (nonlinear_arith)
                requires
                    a <= d,
                    0 <= b,
            ;
            vstd::arithmetic::div_mod::lemma_div_is_ordered(a * b, d * b, d);
            vstd::arithmetic::div_mod::lemma_div_multiples_vanish(b, d);
            vstd::arithmetic::div_mod::lemma_div_pos_is_pos(a * b, d);
        }
        let num: u64 = ((v - vmin) as u64) * (bins as u64);
        let raw: u64 = num / ((vmax - vmin) as u64);
        if raw >= bins as u64 {
            bins - 1
        } else {
            raw as usize
        }
    }
}

/// The sum of a list of counts.
pub open spec fn sum_counts(s: Seq<usize>) -> int
    decreases s.len(),
{
    if s.len() == 0 {
        0
    } else {
        sum_counts(s.drop_last()) + s.last()
    }
}

proof fn lemma_sum_update_plus_one(s: Seq<usize>, b: int)
    requires
        0 <= b < s.len(),
        s[b] < usize::MAX,
    ensures
        sum_counts(s.update(b, (s[b] + 1) as usize)) == sum_counts(s) + 1,
    decreases s.len(),
{
    let t = s.update(b, (s[b] + 1) as usize);
    if b == s.len() - 1 {
        assert(t.drop_last() =~= s.drop_last());
        assert(t.last() == s[b] + 1);
    } else {
        assert(t.drop_last() =~= s.drop_last().update(b, (s[b] + 1) as usize));
        assert(s.drop_last()[b] == s[b]);
        lemma_sum_update_plus_one(s.drop_last(), b);
        assert(t.last() == s.last());
    }
}

/// How many of the values land in bin `b`.
pub open spec fn count_in_bin(data: Seq<int>, vmin: int, vmax: int, bins: int, b: int) -> int
    decreases data.len(),
{
    if data.len() == 0 {
        0
    } else {
        count_in_bin(data.drop_last(), vmin, vmax, bins, b) + (if bin_index_spec(
            data.last(),
            vmin,
            vmax,
            bins,
        ) == b {
            1int
        } else {
            0int
        })
    }
}

proof fn lemma_count_in_bin_push(data: Seq<int>, v: int, vmin: int, vmax: int, bins: int, b: int)
    ensures
        count_in_bin(data.push(v), vmin, vmax, bins, b) == count_in_bin(data, vmin, vmax, bins, b)
            + (if bin_index_spec(v, vmin, vmax, bins) == b {
            1int
        } else {
            0int
        }),
{
    assert(data.push(v).drop_last() =~= data);
}

/// `c` is the fullest bin's count (and at least one).
pub open spec fn is_bin_max(counts: Seq<usize>, c: int) -> bool {
    &&& c >= 1
    &&& forall|b: int| 0 <= b < counts.len() ==> #[trigger] counts[b] <= c
    &&& (c == 1 || exists|b: int| 0 <= b < counts.len() && #[trigger] counts[b] == c)
}

/// The width of one bin, in milli-units; zero for a degenerate range.
pub open spec fn bin_width_spec(vmin: int, vmax: int, bins: int) -> int {
    if vmax > vmin {
        (vmax - vmin) / bins
    } else {
        0
    }
}

/// Bins a distribution.  Every value lands in the bin its index formula
/// names, and the counts sum to the number of input values.
pub fn histogram_counts(data: &Vec<i64>, bins: usize, vmin: i64, vmax: i64) -> (r: Vec<usize>)
    requires
        1 <= bins <= 100_000,
        data@.len() <= MAX_POINTS,
        valid_value(vmin as int),
        valid_value(vmax as int),
        vmin <= vmax,
        forall|i: int| 0 <= i < data@.len() ==> vmin <= #[trigger] data@[i] <= vmax,
        forall|i: int| 0 <= i < data@.len() ==> valid_value(#[trigger] data@[i] as int),
    ensures
        r@.len() == bins,
        sum_counts(r@) == data@.len(),
        forall|b: int| 0 <= b < r@.len() ==> #[trigger] r@[b] <= data@.len(),
        forall|b: int|
            0 <= b < bins ==> #[trigger] r@[b] == count_in_bin(
                data@.map_values(|v: i64| v as int),
                vmin as int,
                vmax as int,
                bins as int,
                b,
            ),
{
    let ghost mapped = data@.map_values(|v: i64| v as int);
    let mut r: Vec<usize> = Vec::new();
    let mut i: usize = 0;
    while i < bins
        invariant
            i <= bins,
            r@.len() == i,
            sum_counts(r@) == 0,
            forall|b: int| 0 <= b < r@.len() ==> #[trigger] r@[b] == 0,
        decreases bins - i,
    {
        let ghost r0 = r@;
        r.push(0);
        proof {
            assert(r@.drop_last() =~= r0);
        }
        i += 1;
    }
    let mut j: usize = 0;
    proof {
        assert(mapped.take(0) =~= Seq::<int>::empty());
    }
    while j < data.len()
        invariant
            j <= data@.len(),
            data@.len() <= MAX_POINTS,
            1 <= bins <= 100_000,
            valid_value(vmin as int),
            valid_value(vmax as int),
            vmin <= vmax,
            forall|i: int| 0 <= i < data@.len() ==> vmin <= #[trigger] data@[i] <= vmax,
            forall|i: int| 0 <= i < data@.len() ==> valid_value(#[trigger] data@[i] as int),
            mapped == data@.map_values(|v: i64| v as int),
            r@.len() == bins,
            sum_counts(r@) == j,
            forall|b: int| 0 <= b < r@.len() ==> #[trigger] r@[b] <= j,
            forall|b: int|
                0 <= b < bins ==> #[trigger] r@[b] == count_in_bin(
                    mapped.take(j as int),
                    vmin as int,
                    vmax as int,
                    bins as int,
                    b,
                ),
        decreases data@.len() - j,
    {
        let b = bin_index(data[j], vmin, vmax, bins);
        let ghost r0 = r@;
        let c = r[b];
        r[b] = c + 1;
        proof {
            lemma_sum_update_plus_one(r0, b as int);
            assert(mapped.take(j as int + 1) =~= mapped.take(j as int).push(mapped[j as int]));
            assert(mapped[j as int] == data@[j as int] as int);
            assert forall|b2: int| 0 <= b2 < bins implies #[trigger] r@[b2] == count_in_bin(
                mapped.take(j as int + 1),
                vmin as int,
                vmax as int,
                bins as int,
                b2,
            ) by {
                lemma_count_in_bin_push(
                    mapped.take(j as int),
                    mapped[j as int],
                    vmin as int,
                    vmax as int,
                    bins as int,
                    b2,
                );
                if b2 == b {
                } else {
                    assert(r@[b2] == r0[b2]);
                }
            }
        }
        j += 1;
    }
    proof {
        assert(mapped.take(mapped.len() as int) =~= mapped);
    }
    r
}

/// The bar height for a bin: `count / scale` of the 480-pixel plot height,
/// where `scale` is in milli-counts (or milli-density-denominator).
pub open spec fn hist_height(count: int, scale_m: int) -> int {
    if scale_m > 0 {
        count * 1000 * 480000 / scale_m
    } else {
        0
    }
}

/// One histogram bar: bin `b` of `bins`, drawn in the 800x600 frame with
/// 60-pixel margins.
pub open spec fn hist_bar_ok(p: Prim, b: int, bins: int, count: int, scale_m: int) -> bool {
    is_rect(
        p,
        60000 + b * (680000int / bins),
        540000 - hist_height(count, scale_m),
        680000int / bins - 1000,
        hist_height(count, scale_m),
        "class=\"histogram-bar\""@,
    )
}

/// A document that holds a rendered histogram of `data`: its bins hold
/// exactly the values their index formula names and sum to the input
/// size; the height scale is the fullest bin's milli-count, or the
/// density denominator `n * bin_width`; and the bars are the only
/// rectangle primitives in the document.
pub open spec fn hist_doc_ok(
    bins: int,
    data: Seq<int>,
    vmin: int,
    vmax: int,
    density: bool,
    maxc: int,
    doc: Seq<Prim>,
    k: int,
    counts: Seq<usize>,
    scale_m: int,
) -> bool {
    &&& counts.len() == bins
    &&& sum_counts(counts) == data.len()
    &&& forall|b: int|
        0 <= b < bins ==> #[trigger] counts[b] == count_in_bin(data, vmin, vmax, bins, b)
    &&& is_bin_max(counts, maxc)
    &&& scale_m == if density {
        data.len() * bin_width_spec(vmin, vmax, bins)
    } else {
        1000 * maxc
    }
    &&& 0 <= k
    &&& k + counts.len() <= doc.len()
    &&& 0 <= scale_m
    &&& forall|b: int|
        0 <= b < counts.len() ==> #[trigger] hist_bar_ok(
            doc[k + b],
            b,
            bins,
            counts[b] as int,
            scale_m,
        )
    &&& count_rects(doc) == bins
}

/// Computes one bar's height in milli-pixels.
fn hist_height_exec(count: usize, scale_m: i64) -> (r: i64)
    requires
        count <= MAX_POINTS,
        0 <= scale_m,
    ensures
        r == hist_height(count as int, scale_m as int),
        0 <= r <= 48_000_000_000_000i64,
{
    if scale_m > 0 {
        let num: u64 = (count as u64) * 1000 * 480000;
        proof {
            vstd::arithmetic::div_mod::lemma_div_pos_is_pos(
                (count as int) * 1000 * 480000,
                scale_m as int,
            );
            assert((count as int) * 1000 * 480000 <= 100_000int * 1000 * 480000) by (nonlinear_arith)
                requires
                    0 <= count <= 100_000,
            ;
            vstd::arithmetic::div_mod::lemma_div_is_ordered(
                (count as int) * 1000 * 480000,
                100_000int * 1000 * 480000,
                scale_m as int,
            );
        }
        (num / (scale_m as u64)) as i64
    } else {
        0
    }
}

/// The histogram bars, one rectangle per bin.
fn hist_bars(counts: &Vec<usize>, scale_m: i64) -> (r: Vec<Prim>)
    requires
        1 <= counts@.len() <= 100_000,
        0 <= scale_m,
        forall|b: int| 0 <= b < counts@.len() ==> #[trigger] counts@[b] <= MAX_POINTS,
    ensures
        r@.len() == counts@.len(),
        forall|b: int|
            0 <= b < counts@.len() ==> #[trigger] hist_bar_ok(
                r@[b],
                b,
                counts@.len() as int,
                counts@[b] as int,
                scale_m as int,
            ),
        count_rects(r@) == counts@.len(),
        count_circles(r@) == 0,
        count_paths(r@) == 0,
        doc_wf(r@),
{
    let bins = counts.len();
    let bar_w = 680000i64 / (bins as i64);
    let mut r: Vec<Prim> = Vec::new();
    let mut b: usize = 0;
    while b < bins
        invariant
            1 <= bins <= 100_000,
            bins == counts@.len(),
            bar_w == 680000int / bins as int,
            0 <= bar_w <= 680000,
            0 <= scale_m,
            forall|k: int| 0 <= k < counts@.len() ==> #[trigger] counts@[k] <= MAX_POINTS,
            b <= bins,
            r@.len() == b,
            count_rects(r@) == b,
            count_circles(r@) == 0,
            count_paths(r@) == 0,
            forall|k: int|
                0 <= k < b ==> #[trigger] hist_bar_ok(
                    r@[k],
                    k,
                    bins as int,
                    counts@[k] as int,
                    scale_m as int,
                ),
            doc_wf(r@),
        decreases bins - b,
    {
        let h = hist_height_exec(counts[b], scale_m);
        proof {
            assert(0 <= (b as int) * (bar_w as int) <= 100_000int * 680000) by (nonlinear_arith)
                requires
                    0 <= b <= 100_000,
                    0 <= bar_w <= 680000,
            ;
        }
        let x = 60000 + (b as i64) * bar_w;
        let ghost r0 = r@;
        r.push(
            Prim::Rect {
                x,
                y: 540000 - h,
                w: bar_w - 1000,
                h,
                attrs: String::from_str("class=\"histogram-bar\""),
            },
        );
        proof {
            assert forall|k: int| 0 <= k < b + 1 implies #[trigger] hist_bar_ok(
                r@[k],
                k,
                bins as int,
                counts@[k] as int,
                scale_m as int,
            ) by {
                if k < b {
                    assert(r@[k] == r0[k]);
                    assert(hist_bar_ok(r0[k], k, bins as int, counts@[k] as int, scale_m as int));
                }
            }
        }
        b += 1;
    }
    r
}

impl HistogramChart {
    /// The effective bin count: at least one, at most 100000.
    pub open spec fn eff_bins(&self) -> int {
        if self.bins < 1 {
            1
        } else if self.bins > 100_000 {
            100_000
        } else {
            self.bins as int
        }
    }

    /// Lays out a histogram of the request's flat data (or first series).
    /// An empty distribution yields an empty drawing; otherwise the result
    /// renders a document holding one bar per bin whose counts sum to the
    /// number of input values.
    pub fn generate(&self, request: &GraphRequest) -> (r: String)
        requires
            request.wf(),
        ensures
            flat_input(request).len() == 0 ==> r@ == Seq::<char>::empty(),
            flat_input(request).len() > 0 ==> exists|
                doc: Seq<Prim>,
                k: int,
                counts: Seq<usize>,
                vmin: int,
                vmax: int,
                maxc: int,
                scale_m: int,
            |
                #[trigger] hist_doc_ok(
                    self.eff_bins(),
                    flat_input(request),
                    vmin,
                    vmax,
                    self.show_density,
                    maxc,
                    doc,
                    k,
                    counts,
                    scale_m,
                ) && is_seq_min(flat_input(request), vmin) && is_seq_max(flat_input(request), vmax)
                    && r@ == render_doc(doc),
    {
        let data = flat_values(request);
        if data.len() == 0 {
            return String::new();
        }
        proof {
            let ghost m = flat_input(request);
            assert(data@.map_values(|v: i64| v as int) == m);
            assert(m.len() == data@.len());
            assert forall|i: int| 0 <= i < data@.len() implies valid_value(
                #[trigger] data@[i] as int,
            ) by {
                assert(m[i] == data@[i] as int);
                if request.series@.len() > 0 {
                    assert(m[i] == request.series@[0].values()[i]);
                    assert(request.series@[0].wf());
                } else {
                    assert(m[i] == request.data@.map_values(|v: i64| v as int)[i]);
                    assert(m[i] == request.data@[i] as int);
                }
            }
        }
        let bins = if self.bins < 1 {
            1
        } else if self.bins > 100_000 {
            100_000
        } else {
            self.bins
        };
        let vmin = min_of(&data);
        let vmax = max_of(&data);
        let counts = histogram_counts(&data, bins, vmin, vmax);
        // The height scale: milli-counts of the fullest bin, or the
        // density denominator n * bin_width.
        let bin_width = if vmax > vmin {
            (((vmax - vmin) as u64) / (bins as u64)) as i64
        } else {
            0
        };
        let max_count = {
            let mut mc: usize = 1;
            let mut b: usize = 0;
            while b < counts.len()
                invariant
                    b <= counts@.len(),
                    mc >= 1,
                    forall|k: int| 0 <= k < counts@.len() ==> #[trigger] counts@[k] <= MAX_POINTS,
                    mc <= MAX_POINTS || mc == 1,
                    forall|k: int| 0 <= k < b ==> #[trigger] counts@[k] <= mc,
                    mc == 1 || exists|k: int| 0 <= k < b && #[trigger] counts@[k] == mc,
                decreases counts@.len() - b,
            {
                if counts[b] > mc {
                    mc = counts[b];
                }
                b += 1;
            }
            proof {
                assert(is_bin_max(counts@, mc as int));
            }
            mc
        };
        let scale_m: i64 = if self.show_density {
            proof {
                assert((data@.len() as int) * (bin_width as int) <= 100_000int
                    * 2_000_000_000_000int) by (nonlinear_arith)
                    requires
                        0 <= data@.len() <= 100_000,
                        0 <= bin_width <= 2_000_000_000_000int,
                ;
                assert((data@.len() as int) * (bin_width as int) >= 0) by (nonlinear_arith)
                    requires
                        0 <= data@.len(),
                        0 <= bin_width,
                ;
            }
            (data.len() as i64) * bin_width
        } else {
            (max_count as i64) * 1000
        };
        let mut doc: Vec<Prim> = Vec::new();
        doc.push(
            Prim::Raw {
                markup: String::from_str(
                    "<svg width=\"800\" height=\"600\" xmlns=\"http://www.w3.org/2000/svg\">\n  <defs>\n    <style>\n      .histogram-bar { fill: #3498db; stroke: #2980b9; stroke-width: 1; }\n      .histogram-bar:hover { fill: #2980b9; }\n      .axis { stroke: #333; stroke-width: 2; }\n      .axis-text { font-family: Arial, sans-serif; font-size: 12px; fill: #333; }\n      .title { font-family: Arial, sans-serif; font-size: 16px; font-weight: bold; fill: #333; text-anchor: middle; }\n      .grid { stroke: #ddd; stroke-width: 1; stroke-dasharray: 2,2; }\n    </style>\n  </defs>",
                ),
            },
        );
        if let Some(title) = &request.title {
            doc.push(
                Prim::Text {
                    x: 400000,
                    y: 30000,
                    attrs: String::from_str("class=\"title\""),
                    content: title.clone(),
                },
            );
        }
        let mut i: i64 = 0;
        while i <= 5
            invariant
                0 <= i <= 6,
                doc_wf(doc@),
                count_rects(doc@) == 0,
            decreases 6 - i,
        {
            let y = 60000 + 96000 * i;
            doc.push(
                Prim::Line {
                    x1: 60000,
                    y1: y,
                    x2: 740000,
                    y2: y,
                    attrs: String::from_str("class=\"grid\""),
                },
            );
            i += 1;
        }
        let ghost k = doc@.len();
        let mut bars = hist_bars(&counts, scale_m);
        let ghost bars0 = bars@;
        doc.append(&mut bars);
        let ghost doc_with_bars = doc@;
        proof {
            assert(forall|b: int|
                0 <= b < counts@.len() ==> doc@[k + b] == bars0[b]);
        }
        // Axes.
        doc.push(
            Prim::Line {
                x1: 60000,
                y1: 540000,
                x2: 740000,
                y2: 540000,
                attrs: String::from_str("class=\"axis\""),
            },
        );
        doc.push(
            Prim::Line {
                x1: 60000,
                y1: 60000,
                x2: 60000,
                y2: 540000,
                attrs: String::from_str("class=\"axis\""),
            },
        );
        // Bin edge labels along the X axis.
        let mut e: usize = 0;
        while e <= bins
            invariant
                bins >= 1,
                bins <= 100_000,
                e <= bins + 1,
                valid_value(vmin as int),
                valid_value(vmax as int),
                vmin <= vmax,
                doc_wf(doc@),
                doc@.len() >= k + counts@.len(),
                bars0.len() == counts@.len(),
                count_rects(doc@) == counts@.len(),
                forall|b: int| 0 <= b < counts@.len() ==> doc@[k + b] == bars0[b],
            decreases bins + 1 - e,
        {
            proof {
                assert(0 <= (e as int) * (680000int / bins as int) <= 680000 * 100_001)
                    by (nonlinear_arith)
                    requires
                        0 <= e <= 100_001,
                        0 <= 680000int / bins as int <= 680000,
                ;
            }
            let x = 60000 + (e as i64) * (680000 / (bins as i64));
            proof {
                assert(0 <= ((vmax - vmin) as int) * (e as int) <= 4_000_000_000_000int * 100_001)
                    by (nonlinear_arith)
                    requires
                        0 <= (vmax - vmin) as int <= 4_000_000_000_000int,
                        0 <= e <= 100_001,
                ;
                vstd::arithmetic::div_mod::lemma_div_pos_is_pos(
                    ((vmax - vmin) as int) * (e as int),
                    bins as int,
                );
                vstd::arithmetic::div_mod::lemma_div_is_ordered(
                    ((vmax - vmin) as int) * (e as int),
                    4_000_000_000_000int * 100_001,
                    bins as int,
                );
            }
            let num: u64 = ((vmax - vmin) as u64) * (e as u64);
            let value = vmin + ((num / (bins as u64)) as i64);
            doc.push(
                Prim::Text {
                    x,
                    y: 560000,
                    attrs: String::from_str("class=\"axis-text\" text-anchor=\"middle\""),
                    content: fmt_milli_1dp(value),
                },
            );
            e += 1;
        }
        // Count labels along the Y axis.
        let mut t: i64 = 0;
        while t <= 5
            invariant
                0 <= t <= 6,
                0 <= scale_m <= 200_000_000_000_000_000i64,
                doc_wf(doc@),
                doc@.len() >= k + counts@.len(),
                bars0.len() == counts@.len(),
                count_rects(doc@) == counts@.len(),
                forall|b: int| 0 <= b < counts@.len() ==> doc@[k + b] == bars0[b],
            decreases 6 - t,
        {
            let y = 540000 - 96000 * t;
            proof {
                assert(0 <= (scale_m as int) * (t as int) <= 200_000_000_000_000_000int * 5)
                    by (nonlinear_arith)
                    requires
                        0 <= scale_m <= 200_000_000_000_000_000i64,
                        0 <= t <= 5,
                ;
            }
            let label_m: u64 = ((scale_m * t) as u64) / 5;
            doc.push(
                Prim::Text {
                    x: 50000,
                    y: y + 4000,
                    attrs: String::from_str("class=\"axis-text\" text-anchor=\"end\""),
                    content: u64_str(label_m / 1000),
                },
            );
            t += 1;
        }
        if let Some(xl) = &request.x_label {
            doc.push(
                Prim::Text {
                    x: 400000,
                    y: 590000,
                    attrs: String::from_str("class=\"axis-text\" text-anchor=\"middle\""),
                    content: xl.clone(),
                },
            );
            proof {
                assert(forall|b: int| 0 <= b < counts@.len() ==> doc@[k + b] == bars0[b]);
            }
        }
        if let Some(yl) = &request.y_label {
            doc.push(
                Prim::Text {
                    x: 20000,
                    y: 300000,
                    attrs: String::from_str(
                        "class=\"axis-text\" text-anchor=\"middle\" transform=\"rotate(-90, 20, 300)\"",
                    ),
                    content: yl.clone(),
                },
            );
            proof {
                assert(forall|b: int| 0 <= b < counts@.len() ==> doc@[k + b] == bars0[b]);
            }
        }
        doc.push(Prim::Raw { markup: String::from_str("</svg>") });
        proof {
            assert(forall|b: int| 0 <= b < counts@.len() ==> doc@[k + b] == bars0[b]);
        }
        let out = render(&doc);
        proof {
            let ghost vals = flat_input(request);
            assert(counts@.len() == self.eff_bins());
            assert(sum_counts(counts@) == vals.len());
            assert forall|b: int| 0 <= b < counts@.len() implies #[trigger] hist_bar_ok(
                doc@[k + b],
                b,
                counts@.len() as int,
                counts@[b] as int,
                scale_m as int,
            ) by {
                assert(doc@[k + b] == bars0[b]);
                assert(hist_bar_ok(
                    bars0[b],
                    b,
                    counts@.len() as int,
                    counts@[b] as int,
                    scale_m as int,
                ));
            }
            assert forall|b: int| 0 <= b < bins implies #[trigger] counts@[b] == count_in_bin(
                vals,
                vmin as int,
                vmax as int,
                bins as int,
                b,
            ) by {
                assert(counts@[b] == count_in_bin(
                    data@.map_values(|v: i64| v as int),
                    vmin as int,
                    vmax as int,
                    bins as int,
                    b,
                ));
            }
            assert(is_seq_min(vals, vmin as int)) by {
                let w = choose|w: int| 0 <= w < data@.len() && data@[w] == vmin;
                assert(vals[w] == data@[w] as int);
            }
            assert(is_seq_max(vals, vmax as int)) by {
                let w = choose|w: int| 0 <= w < data@.len() && data@[w] == vmax;
                assert(vals[w] == data@[w] as int);
            }
            assert(scale_m as int == if self.show_density {
                vals.len() * bin_width_spec(vmin as int, vmax as int, bins as int)
            } else {
                1000 * (max_count as int)
            }) by {
                if self.show_density {
                    assert(bin_width as int == bin_width_spec(vmin as int, vmax as int, bins as int));
                } else {
                    assert((max_count as int) * 1000 == 1000 * (max_count as int));
                }
            }
            assert(hist_doc_ok(
                self.eff_bins(),
                vals,
                vmin as int,
                vmax as int,
                self.show_density,
                max_count as int,
                doc@,
                k as int,
                counts@,
                scale_m as int,
            ));
        }
        out
    }
}

impl Chart for HistogramChart {
    fn generate(&self, request: &GraphRequest) -> (svg: String) {
        HistogramChart::generate(self, request)
    }
}

} // verus!
