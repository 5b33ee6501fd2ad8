//! Stacked-bar layout.
//!
//! Per category, the series' bars stack bottom-up in series order.
//! Negative values clamp to zero.  Segment tops are computed from
//! cumulative sums mapped through one shared scale — the largest clamped
//! category total — so the rendered stack height of a category is exactly
//! its clamped total scaled by that maximum, with no rounding drift.
//! The shortest series bounds the number of categories.

use vstd::prelude::*;
use crate::canvas::{
    count_circles,
    count_paths,
    count_rects,
    doc_wf,
    fill_attr_spec,
    is_rect,
    render,
    render_doc,
    Prim,
};
use crate::charts::{aligned_categories, req_palette, request_palette, Chart};
use crate::models::{GraphRequest, Series, MAX_POINTS, MAX_SERIES, VALUE_LIMIT};
use crate::num::{fmt_milli_0dp, fmt_milli_1dp, u64_str};
use crate::themes::{resolve_color, resolved_color};
use crate::utils::svg::{create_legend, named_count};

verus! {

broadcast use {crate::canvas::lemma_counts_push, crate::canvas::lemma_counts_concat};

/// Stacked-bar configuration: whether segments carry value labels, and
/// whether those labels show the percentage of the category instead.
pub struct StackedBarChart {
    pub show_values: bool,
    pub show_percentage: bool,
}

impl Default for StackedBarChart {
    /// No segment labels.
    fn default() -> (r: Self)
        ensures
            !r.show_values,
            !r.show_percentage,
    {
        StackedBarChart { show_values: false, show_percentage: false }
    }
}

/// A negative value contributes nothing to a stack.
pub open spec fn clamp0(x: int) -> int {
    if x < 0 {
        0
    } else {
        x
    }
}

/// The clamped sum of the first `s` series' values at category `c`.
pub open spec fn stack_cum(series: Seq<Series>, c: int, s: int) -> int
    decreases s,
{
    if s <= 0 {
        0
    } else {
        stack_cum(series, c, s - 1) + clamp0(series[s - 1].values()[c])
    }
}

/// A cumulative stack value mapped to pixels: `x / max_total` of the
/// 480-pixel plot height.
pub open spec fn stack_px(x: int, max_total: int) -> int {
    if max_total > 0 {
        480000 * x / max_total
    } else {
        0
    }
}

/// The shared stack scale: the largest clamped category total, or a fixed
/// default of one unit when every total is zero (so degenerate data draws
/// an empty frame instead of failing).
pub open spec fn stack_scale(max_total: int) -> int {
    if max_total > 0 {
        max_total
    } else {
        1000
    }
}

/// Cumulative stack values grow with the series index.
pub proof fn lemma_stack_cum_mono(series: Seq<Series>, c: int, s1: int, s2: int)
    requires
        0 <= s1 <= s2,
    ensures
        stack_cum(series, c, s1) <= stack_cum(series, c, s2),
    decreases s2 - s1,
{
    if s1 < s2 {
        lemma_stack_cum_mono(series, c, s1, s2 - 1);
    }
}

/// The sum of the rendered segment heights of the first `s` segments of a
/// category's stack.
pub open spec fn stack_heights_sum(series: Seq<Series>, c: int, s: int, max_total: int) -> int
    decreases s,
{
    if s <= 0 {
        0
    } else {
        stack_heights_sum(series, c, s - 1, max_total) + (stack_px(
            stack_cum(series, c, s),
            max_total,
        ) - stack_px(stack_cum(series, c, s - 1), max_total))
    }
}

/// For any category, the rendered stack height — the sum of its segment
/// heights — equals the clamped sum of the series values at that
/// category, scaled by the shared maximum total.
pub proof fn lemma_stack_height_total(series: Seq<Series>, c: int, s: int, max_total: int)
    requires
        0 <= s,
        max_total > 0,
    ensures
        stack_heights_sum(series, c, s, max_total) == stack_px(stack_cum(series, c, s), max_total),
    decreases s,
{
    if s == 0 {
        assert(480000 * 0 == 0) by (nonlinear_arith);
        assert((0int) / max_total == 0) by {
            vstd::arithmetic::div_mod::lemma_div_multiples_vanish(0, max_total);
            assert(max_total * 0 == 0) by (nonlinear_arith);
        }
    } else {
        lemma_stack_height_total(series, c, s - 1, max_total);
    }
}

/// One stack segment: series `s` at category `c`, drawn between the
/// pixel images of the cumulative sums below and through it, filled with
/// the point's resolved color.
pub open spec fn stacked_seg_ok(
    p: Prim,
    series: Seq<Series>,
    pal: Seq<Seq<char>>,
    c: int,
    s: int,
    n_cat: int,
    scale: int,
) -> bool {
    let spacing = 680000int / n_cat;
    let bw = spacing * 8 / 10;
    let x = 60000 + c * spacing + (spacing - bw) / 2;
    let y1 = stack_px(stack_cum(series, c, s + 1), scale);
    let y0 = stack_px(stack_cum(series, c, s), scale);
    is_rect(
        p,
        x,
        540000 - y1,
        bw,
        y1 - y0,
        fill_attr_spec(resolved_color(series[s].data@[c].color, series[s].color, pal, s))
            + " class=\"stacked-bar\""@,
    )
}

/// The clamped per-category totals.
fn stacked_totals(series: &Vec<Series>, n_cat: usize) -> (r: Vec<i64>)
    requires
        1 <= series@.len() <= MAX_SERIES,
        forall|q: int| 0 <= q < series@.len() ==> (#[trigger] series@[q]).wf(),
        forall|q: int|
            0 <= q < series@.len() ==> n_cat <= (#[trigger] series@[q]).values().len(),
        1 <= n_cat <= MAX_POINTS,
    ensures
        r@.len() == n_cat,
        forall|c: int|
            0 <= c < n_cat ==> #[trigger] r@[c] == stack_cum(series@, c, series@.len() as int),
        forall|c: int| 0 <= c < n_cat ==> 0 <= #[trigger] r@[c] <= 1_000_000_000_000_000i64,
{
    let nseries = series.len();
    let mut r: Vec<i64> = Vec::new();
    let mut c: usize = 0;
    while c < n_cat
        invariant
            1 <= series@.len() <= MAX_SERIES,
            nseries == series@.len(),
            forall|q: int| 0 <= q < series@.len() ==> (#[trigger] series@[q]).wf(),
            forall|q: int|
                0 <= q < series@.len() ==> n_cat <= (#[trigger] series@[q]).values().len(),
            1 <= n_cat <= MAX_POINTS,
            c <= n_cat,
            r@.len() == c,
            forall|j: int|
                0 <= j < c ==> #[trigger] r@[j] == stack_cum(series@, j, series@.len() as int),
            forall|j: int| 0 <= j < c ==> 0 <= #[trigger] r@[j] <= 1_000_000_000_000_000i64,
        decreases n_cat - c,
    {
        let mut acc: i64 = 0;
        let mut s: usize = 0;
        while s < nseries
            invariant
                1 <= series@.len() <= MAX_SERIES,
                nseries == series@.len(),
                forall|q: int| 0 <= q < series@.len() ==> (#[trigger] series@[q]).wf(),
                forall|q: int|
                    0 <= q < series@.len() ==> n_cat <= (#[trigger] series@[q]).values().len(),
                c < n_cat,
                s <= nseries,
                acc == stack_cum(series@, c as int, s as int),
                0 <= acc <= (s as int) * VALUE_LIMIT,
            decreases nseries - s,
        {
            let ser = &series[s];
            let v = ser.data[c].value;
            proof {
                assert(series@[s as int].values()[c as int] == v);
                assert(series@[s as int].wf());
                assert((s as int) * VALUE_LIMIT + VALUE_LIMIT == (s as int + 1) * VALUE_LIMIT)
                    by (nonlinear_arith);
            }
            if v > 0 {
                acc = acc + v;
            }
            s += 1;
        }
        proof {
            assert((nseries as int) * VALUE_LIMIT <= 1_000_000_000_000_000int) by (nonlinear_arith)
                requires
                    0 <= nseries <= 1000,
            ;
        }
        r.push(acc);
        c += 1;
    }
    r
}

/// A cumulative stack value in pixels.
fn stack_px_exec(x: i64, max_total: i64) -> (r: i64)
    requires
        0 <= x <= max_total,
        max_total <= 1_000_000_000_000_000i64,
    ensures
        max_total > 0 ==> r == stack_px(x as int, max_total as int),
        max_total <= 0 ==> r == 0,
        0 <= r <= 480000,
{
    if max_total > 0 {
        proof {
            assert(0 <= 480000 * (x as int) <= 480000 * (max_total as int)) by (nonlinear_arith)
                requires
                    0 <= x <= max_total,
            ;
            vstd::arithmetic::div_mod::lemma_div_pos_is_pos(480000 * (x as int), max_total as int);
            vstd::arithmetic::div_mod::lemma_div_is_ordered(
                480000 * (x as int),
                480000 * (max_total as int),
                max_total as int,
            );
            assert(480000 * (max_total as int) == (max_total as int) * 480000) by (nonlinear_arith);
            vstd::arithmetic::div_mod::lemma_div_multiples_vanish(480000, max_total as int);
        }
        ((480000u128 * (x as u128)) / (max_total as u128)) as i64
    } else {
        0
    }
}

/// The stack segments, category-major: segment `(c, s)` stands at index
/// `c * nseries + s`.
fn stacked_segments(series: &Vec<Series>, n_cat: usize, scale: i64, palette: &Vec<String>) -> (r:
    Vec<Prim>)
    requires
        1 <= series@.len() <= MAX_SERIES,
        forall|q: int| 0 <= q < series@.len() ==> (#[trigger] series@[q]).wf(),
        forall|q: int|
            0 <= q < series@.len() ==> n_cat <= (#[trigger] series@[q]).values().len(),
        1 <= n_cat <= MAX_POINTS,
        0 < scale <= 1_000_000_000_000_000i64,
        forall|c: int|
            0 <= c < n_cat ==> stack_cum(series@, c, series@.len() as int) <= scale,
        palette@.len() > 0,
    ensures
        r@.len() == n_cat * series@.len(),
        count_rects(r@) == n_cat * series@.len(),
        count_circles(r@) == 0,
        count_paths(r@) == 0,
        forall|c: int, s: int|
            0 <= c < n_cat && 0 <= s < series@.len() ==> stacked_seg_ok(
                #[trigger] r@[c * series@.len() + s],
                series@,
                palette@.map_values(|x: String| x@),
                c,
                s,
                n_cat as int,
                scale as int,
            ),
        doc_wf(r@),
{
    let ghost pal = palette@.map_values(|x: String| x@);
    let nseries = series.len();
    let spacing = 680000i64 / (n_cat as i64);
    let bw = spacing * 8 / 10;
    let half = (spacing - bw) / 2;
    let mut r: Vec<Prim> = Vec::new();
    let mut c: usize = 0;
    while c < n_cat
        invariant
            1 <= series@.len() <= MAX_SERIES,
            nseries == series@.len(),
            forall|q: int| 0 <= q < series@.len() ==> (#[trigger] series@[q]).wf(),
            forall|q: int|
                0 <= q < series@.len() ==> n_cat <= (#[trigger] series@[q]).values().len(),
            1 <= n_cat <= MAX_POINTS,
            0 < scale <= 1_000_000_000_000_000i64,
            forall|j: int|
                0 <= j < n_cat ==> stack_cum(series@, j, series@.len() as int) <= scale,
            spacing == 680000int / n_cat as int,
            0 <= spacing <= 680000,
            bw == spacing * 8 / 10,
            0 <= bw <= spacing,
            half == (spacing - bw) / 2,
            0 <= half <= spacing,
            palette@.len() > 0,
            pal == palette@.map_values(|x: String| x@),
            c <= n_cat,
            r@.len() == c * (nseries as int),
            count_rects(r@) == c * (nseries as int),
            count_circles(r@) == 0,
            count_paths(r@) == 0,
            forall|j: int, s: int|
                0 <= j < c && 0 <= s < series@.len() ==> stacked_seg_ok(
                    #[trigger] r@[j * series@.len() + s],
                    series@,
                    pal,
                    j,
                    s,
                    n_cat as int,
                    scale as int,
                ),
            doc_wf(r@),
        decreases n_cat - c,
    {
        proof {
            assert(0 <= (c as int) * (spacing as int) <= 100_000int * 680000) by (nonlinear_arith)
                requires
                    0 <= c <= 100_000,
                    0 <= spacing <= 680000,
            ;
        }
        let x = 60000 + (c as i64) * spacing + half;
        let mut acc: i64 = 0;
        let mut prev_px: i64 = 0;
        let mut s: usize = 0;
        proof {
            assert(stack_px(0, scale as int) == 0) by {
                assert(480000 * 0 == 0) by (nonlinear_arith);
                vstd::arithmetic::div_mod::lemma_div_multiples_vanish(0, scale as int);
                assert((scale as int) * 0 == 0) by (nonlinear_arith);
            }
        }
        while s < nseries
            invariant
                1 <= series@.len() <= MAX_SERIES,
                nseries == series@.len(),
                forall|q: int| 0 <= q < series@.len() ==> (#[trigger] series@[q]).wf(),
                forall|q: int|
                    0 <= q < series@.len() ==> n_cat <= (#[trigger] series@[q]).values().len(),
                c < n_cat,
                n_cat <= MAX_POINTS,
                0 < scale <= 1_000_000_000_000_000i64,
                forall|j: int|
                    0 <= j < n_cat ==> stack_cum(series@, j, series@.len() as int) <= scale,
                spacing == 680000int / n_cat as int,
                bw == spacing * 8 / 10,
                half == (spacing - bw) / 2,
                0 <= bw <= spacing <= 680000,
                0 <= half <= spacing,
                x == 60000 + (c as int) * spacing + half,
                0 <= x <= 60000 + 100_000int * 680000 + 680000,
                palette@.len() > 0,
                pal == palette@.map_values(|x: String| x@),
                s <= nseries,
                count_rects(r@) == (c as int) * (nseries as int) + s,
                count_circles(r@) == 0,
                count_paths(r@) == 0,
                acc == stack_cum(series@, c as int, s as int),
                0 <= acc <= scale,
                prev_px == stack_px(stack_cum(series@, c as int, s as int), scale as int),
                0 <= prev_px <= 480000,
                r@.len() == (c as int) * (nseries as int) + s,
                forall|j: int, t: int|
                    0 <= j < c && 0 <= t < series@.len() ==> stacked_seg_ok(
                        #[trigger] r@[j * series@.len() + t],
                        series@,
                        pal,
                        j,
                        t,
                        n_cat as int,
                        scale as int,
                    ),
                forall|t: int|
                    0 <= t < s ==> stacked_seg_ok(
                        #[trigger] r@[(c as int) * series@.len() + t],
                        series@,
                        pal,
                        c as int,
                        t,
                        n_cat as int,
                        scale as int,
                    ),
                doc_wf(r@),
            decreases nseries - s,
        {
            let ser = &series[s];
            let v = ser.data[c].value;
            proof {
                assert(series@[s as int].values()[c as int] == v);
                assert(series@[s as int].wf());
                lemma_stack_cum_mono(series@, c as int, s as int + 1, nseries as int);
            }
            let cl = if v > 0 {
                v
            } else {
                0
            };
            let acc2 = acc + cl;
            let cur_px = stack_px_exec(acc2, scale);
            let color = resolve_color(&ser.data[c].color, &ser.color, palette, s);
            let mut attrs = crate::canvas::fill_attr(color);
            attrs.append(" class=\"stacked-bar\"");
            proof {
                assert(ser.data@[c as int] == series@[s as int].data@[c as int]);
                assert(attrs@ =~= fill_attr_spec(
                    resolved_color(
                        series@[s as int].data@[c as int].color,
                        series@[s as int].color,
                        pal,
                        s as int,
                    ),
                ) + " class=\"stacked-bar\""@);
            }
            let ghost r0 = r@;
            r.push(
                Prim::Rect {
                    x,
                    y: 540000 - cur_px,
                    w: bw,
                    h: cur_px - prev_px,
                    attrs,
                },
            );
            proof {
                assert(stack_cum(series@, c as int, s as int + 1) == acc2);
                assert(stack_px(stack_cum(series@, c as int, s as int), scale as int)
                    <= stack_px(stack_cum(series@, c as int, s as int + 1), scale as int)) by {
                    lemma_stack_cum_mono(series@, c as int, s as int, s as int + 1);
                    assert(480000 * stack_cum(series@, c as int, s as int) <= 480000 * stack_cum(
                        series@,
                        c as int,
                        s as int + 1,
                    )) by (nonlinear_arith)
                        requires
                            stack_cum(series@, c as int, s as int) <= stack_cum(
                                series@,
                                c as int,
                                s as int + 1,
                            ),
                    ;
                    vstd::arithmetic::div_mod::lemma_div_is_ordered(
                        480000 * stack_cum(series@, c as int, s as int),
                        480000 * stack_cum(series@, c as int, s as int + 1),
                        scale as int,
                    );
                }
                assert(r0.len() == (c as int) * series@.len() + s);
                assert forall|j: int, t: int| 0 <= j < c && 0 <= t < series@.len() implies
                    stacked_seg_ok(
                    #[trigger] r@[j * series@.len() + t],
                    series@,
                    pal,
                    j,
                    t,
                    n_cat as int,
                    scale as int,
                ) by {
                    assert(0 <= j * series@.len() + t < r0.len()) by (nonlinear_arith)
                        requires
                            r0.len() == (c as int) * series@.len() + s,
                            0 <= j < c as int,
                            0 <= t < series@.len(),
                            0 <= s,
                    ;
                    assert(r@[j * series@.len() + t] == r0[j * series@.len() + t]);
                    assert(stacked_seg_ok(
                        r0[j * series@.len() + t],
                        series@,
                        pal,
                        j,
                        t,
                        n_cat as int,
                        scale as int,
                    ));
                }
                assert forall|t: int| 0 <= t < s + 1 implies stacked_seg_ok(
                    #[trigger] r@[(c as int) * series@.len() + t],
                    series@,
                    pal,
                    c as int,
                    t,
                    n_cat as int,
                    scale as int,
                ) by {
                    if t < s {
                        assert(r@[(c as int) * series@.len() + t] == r0[(c as int) * series@.len()
                            + t]);
                        assert(stacked_seg_ok(
                            r0[(c as int) * series@.len() + t],
                            series@,
                            pal,
                            c as int,
                            t,
                            n_cat as int,
                            scale as int,
                        ));
                    } else {
                        assert(r@[(c as int) * series@.len() + t] == r@[r0.len() as int]);
                    }
                }
            }
            acc = acc2;
            prev_px = cur_px;
            s += 1;
        }
        proof {
            assert((c as int) * (nseries as int) + (nseries as int) == (c as int + 1) * (
            nseries as int)) by (nonlinear_arith);
        }
        c += 1;
    }
    r
}

/// `n` is the number of aligned categories: the length of the shortest
/// series.
pub open spec fn is_min_cat(series: Seq<Series>, n: int) -> bool {
    &&& forall|q: int| 0 <= q < series.len() ==> n <= (#[trigger] series[q]).values().len()
    &&& exists|q: int| 0 <= q < series.len() && n == (#[trigger] series[q]).values().len()
}

/// `m` is the largest clamped category total over the first `n_cat`
/// categories.
pub open spec fn is_max_total(series: Seq<Series>, n_cat: int, m: int) -> bool {
    &&& forall|c: int| 0 <= c < n_cat ==> stack_cum(series, c, series.len() as int) <= m
    &&& exists|c: int| 0 <= c < n_cat && stack_cum(series, c, series.len() as int) == m
}

/// A document that holds a rendered stacked-bar chart: somewhere in it
/// stands, for each category and series, a segment between the pixel
/// images of the cumulative clamped sums, all scaled by one shared
/// maximum total.
pub open spec fn stacked_doc_ok(
    series: Seq<Series>,
    pal: Seq<Seq<char>>,
    n_cat: int,
    max_total: int,
    doc: Seq<Prim>,
    k: int,
) -> bool {
    &&& 0 <= k
    &&& k + n_cat * series.len() <= doc.len()
    &&& forall|c: int| 0 <= c < n_cat ==> stack_cum(series, c, series.len() as int) <= max_total
    &&& exists|c: int|
        0 <= c < n_cat && stack_cum(series, c, series.len() as int) == max_total
    &&& forall|c: int, s: int|
        0 <= c < n_cat && 0 <= s < series.len() ==> stacked_seg_ok(
            #[trigger] doc[k + c * series.len() + s],
            series,
            pal,
            c,
            s,
            n_cat,
            stack_scale(max_total),
        )
    &&& count_rects(doc) == n_cat * series.len() + named_count(series)
}

impl StackedBarChart {
    /// Lays out a stacked-bar chart.  A request without series or without
    /// a complete category yields an empty drawing; when every clamped
    /// total is zero the chart keeps a fixed default scale and draws the
    /// frame with empty stacks; otherwise the result renders a document
    /// holding one segment per category and series, stacked cumulatively.
    pub fn generate(&self, request: &GraphRequest) -> (r: String)
        requires
            request.wf(),
        ensures
            request.series@.len() == 0 ==> r@ == Seq::<char>::empty(),
            request.series@.len() > 0 ==> exists|n_cat: int|
                {
                    &&& #[trigger] is_min_cat(request.series@, n_cat)
                    &&& (n_cat == 0 ==> r@ == Seq::<char>::empty())
                    &&& (n_cat > 0 ==> exists|max_total: int|
                        {
                            &&& #[trigger] is_max_total(request.series@, n_cat, max_total)
                            &&& exists|doc: Seq<Prim>, k: int|
                                #[trigger] stacked_doc_ok(
                                    request.series@,
                                    req_palette(request),
                                    n_cat,
                                    max_total,
                                    doc,
                                    k,
                                ) && r@ == render_doc(doc)
                        })
                },
    {
        if request.series.len() == 0 {
            return String::new();
        }
        let n_cat = aligned_categories(&request.series);
        proof {
            assert(is_min_cat(request.series@, n_cat as int));
        }
        if n_cat == 0 {
            return String::new();
        }
        proof {
            assert(forall|q: int|
                0 <= q < request.series@.len() ==> n_cat <= (
                #[trigger] request.series@[q]).values().len());
        }
        let totals = stacked_totals(&request.series, n_cat);
        let max_total = crate::scale::max_of(&totals);
        proof {
            assert forall|c: int| 0 <= c < n_cat implies stack_cum(
                request.series@,
                c,
                request.series@.len() as int,
            ) <= max_total as int by {
                assert(totals@[c] == stack_cum(request.series@, c, request.series@.len() as int));
            }
            let w = choose|w: int| 0 <= w < totals@.len() && totals@[w] == max_total;
            assert(stack_cum(request.series@, w, request.series@.len() as int)
                == max_total as int);
            assert(is_max_total(request.series@, n_cat as int, max_total as int));
        }
        // Degenerate data (all clamped totals zero) keeps a fixed default
        // scale of one unit and draws the empty frame.
        let scale: i64 = if max_total > 0 {
            max_total
        } else {
            1000
        };
        proof {
            assert forall|c: int| 0 <= c < n_cat implies stack_cum(
                request.series@,
                c,
                request.series@.len() as int,
            ) <= scale as int by {
                assert(totals@[c] == stack_cum(request.series@, c, request.series@.len() as int));
            }
        }
        let palette = request_palette(request);
        let ghost pal = palette@.map_values(|x: String| x@);
        let mut doc: Vec<Prim> = Vec::new();
        doc.push(
            Prim::Raw {
                markup: String::from_str(
                    "<svg width=\"800\" height=\"600\" xmlns=\"http://www.w3.org/2000/svg\">\n  <defs>\n    <style>\n      .stacked-bar { stroke: #fff; stroke-width: 1; }\n      .stacked-bar:hover { stroke: #333; stroke-width: 2; }\n      .bar-label { font-family: Arial, sans-serif; font-size: 10px; fill: #fff; text-anchor: middle; dominant-baseline: middle; }\n      .axis { stroke: #333; stroke-width: 2; }\n      .axis-text { font-family: Arial, sans-serif; font-size: 12px; fill: #333; }\n      .title { font-family: Arial, sans-serif; font-size: 16px; font-weight: bold; fill: #333; text-anchor: middle; }\n      .grid { stroke: #ddd; stroke-width: 1; stroke-dasharray: 2,2; }\n      .legend { font-family: Arial, sans-serif; font-size: 12px; fill: #333; }\n    </style>\n  </defs>\n  <rect width=\"100%\" height=\"100%\" fill=\"white\"/>",
                ),
            },
        );
        if let Some(title) = &request.title {
            doc.push(
                Prim::Text {
                    x: 400000,
                    y: 30000,
                    attrs: String::from_str("class=\"title\""),
                    content: title.clone(),
                },
            );
        }
        let mut g: i64 = 0;
        while g <= 5
            invariant
                0 <= g <= 6,
                doc_wf(doc@),
                count_rects(doc@) == 0,
            decreases 6 - g,
        {
            let y = 60000 + 96000 * g;
            doc.push(
                Prim::Line {
                    x1: 60000,
                    y1: y,
                    x2: 740000,
                    y2: y,
                    attrs: String::from_str("class=\"grid\""),
                },
            );
            g += 1;
        }
        let ghost k = doc@.len();
        let mut segs = stacked_segments(&request.series, n_cat, scale, &palette);
        let ghost segs0 = segs@;
        doc.append(&mut segs);
        proof {
            assert(forall|j: int| 0 <= j < segs0.len() ==> doc@[k + j] == segs0[j]);
        }
        // Axes.
        doc.push(
            Prim::Line {
                x1: 60000,
                y1: 540000,
                x2: 740000,
                y2: 540000,
                attrs: String::from_str("class=\"axis\""),
            },
        );
        doc.push(
            Prim::Line {
                x1: 60000,
                y1: 60000,
                x2: 60000,
                y2: 540000,
                attrs: String::from_str("class=\"axis\""),
            },
        );
        // Category labels.
        let spacing = 680000i64 / (n_cat as i64);
        let mut c: usize = 0;
        while c < n_cat
            invariant
                1 <= n_cat <= MAX_POINTS,
                spacing == 680000int / n_cat as int,
                0 <= spacing <= 680000,
                c <= n_cat,
                request.wf(),
                request.series@.len() >= 1,
                forall|q: int|
                    0 <= q < request.series@.len() ==> n_cat <= (
                    #[trigger] request.series@[q]).values().len(),
                doc_wf(doc@),
                doc@.len() >= k + segs0.len(),
                count_rects(doc@) == segs0.len(),
                forall|j: int| 0 <= j < segs0.len() ==> doc@[k + j] == segs0[j],
            decreases n_cat - c,
        {
            proof {
                assert(0 <= (c as int) * (spacing as int) <= 100_000int * 680000)
                    by (nonlinear_arith)
                    requires
                        0 <= c <= 100_000,
                        0 <= spacing <= 680000,
                ;
            }
            let x = 60000 + (c as i64) * spacing + spacing / 2;
            let label: String = {
                let first = &request.series[0];
                proof {
                    assert(request.series@[0].values().len() == request.series@[0].data@.len());
                }
                match &first.data[c].label {
                    Some(l) => l.clone(),
                    None => {
                        let mut t = String::from_str("Category ");
                        let num = u64_str((c as u64) + 1);
                        t.append(num.as_str());
                        t
                    },
                }
            };
            doc.push(
                Prim::Text {
                    x,
                    y: 560000,
                    attrs: String::from_str("class=\"axis-text\" text-anchor=\"middle\""),
                    content: label,
                },
            );
            c += 1;
        }
        // Scale labels.
        let mut t: i64 = 0;
        while t <= 5
            invariant
                0 <= t <= 6,
                0 < scale <= 1_000_000_000_000_000i64,
                doc_wf(doc@),
                doc@.len() >= k + segs0.len(),
                count_rects(doc@) == segs0.len(),
                forall|j: int| 0 <= j < segs0.len() ==> doc@[k + j] == segs0[j],
            decreases 6 - t,
        {
            let y = 540000 - 96000 * t;
            proof {
                assert(0 <= (scale as int) * (t as int) <= 1_000_000_000_000_000int * 5)
                    by (nonlinear_arith)
                    requires
                        0 < scale <= 1_000_000_000_000_000i64,
                        0 <= t <= 5,
                ;
            }
            let value = (((scale as u128) * (t as u128)) / 5u128) as i64;
            doc.push(
                Prim::Text {
                    x: 50000,
                    y: y + 4000,
                    attrs: String::from_str("class=\"axis-text\" text-anchor=\"end\""),
                    content: fmt_milli_0dp(value),
                },
            );
            t += 1;
        }
        if let Some(xl) = &request.x_label {
            doc.push(
                Prim::Text {
                    x: 400000,
                    y: 590000,
                    attrs: String::from_str("class=\"axis-text\" text-anchor=\"middle\""),
                    content: xl.clone(),
                },
            );
            proof {
                assert(forall|j: int| 0 <= j < segs0.len() ==> doc@[k + j] == segs0[j]);
            }
        }
        if let Some(yl) = &request.y_label {
            doc.push(
                Prim::Text {
                    x: 20000,
                    y: 300000,
                    attrs: String::from_str(
                        "class=\"axis-text\" text-anchor=\"middle\" transform=\"rotate(-90, 20, 300)\"",
                    ),
                    content: yl.clone(),
                },
            );
            proof {
                assert(forall|j: int| 0 <= j < segs0.len() ==> doc@[k + j] == segs0[j]);
            }
        }
        // Optional segment labels: the value, or its share of the
        // category, centered in segments tall enough to carry text.
        if self.show_values {
            let nseries = request.series.len();
            let spacing = 680000i64 / (n_cat as i64);
            let bw = spacing * 8 / 10;
            let half = (spacing - bw) / 2;
            let mut c2: usize = 0;
            while c2 < n_cat
                invariant
                    request.wf(),
                    request.series@.len() >= 1,
                    nseries == request.series@.len(),
                    forall|q: int|
                        0 <= q < request.series@.len() ==> n_cat <= (
                        #[trigger] request.series@[q]).values().len(),
                    1 <= n_cat <= MAX_POINTS,
                    0 < scale <= 1_000_000_000_000_000i64,
                    forall|c: int|
                        0 <= c < n_cat ==> stack_cum(
                            request.series@,
                            c,
                            request.series@.len() as int,
                        ) <= scale as int,
                    spacing == 680000int / n_cat as int,
                    0 <= spacing <= 680000,
                    bw == spacing * 8 / 10,
                    0 <= bw <= spacing,
                    half == (spacing - bw) / 2,
                    0 <= half <= spacing,
                    c2 <= n_cat,
                    totals@.len() == n_cat,
                    forall|c: int| 0 <= c < n_cat ==> 0 <= #[trigger] totals@[c],
                    doc_wf(doc@),
                    doc@.len() >= k + segs0.len(),
                    count_rects(doc@) == segs0.len(),
                    forall|j: int| 0 <= j < segs0.len() ==> doc@[k + j] == segs0[j],
                decreases n_cat - c2,
            {
                proof {
                    assert(0 <= (c2 as int) * (spacing as int) <= 100_000int * 680000)
                        by (nonlinear_arith)
                        requires
                            0 <= c2 <= 100_000,
                            0 <= spacing <= 680000,
                    ;
                }
                let x = 60000 + (c2 as i64) * spacing + half;
                let mut acc: i64 = 0;
                let mut prev_px: i64 = 0;
                let mut s2: usize = 0;
                proof {
                    assert(stack_px(0, scale as int) == 0) by {
                        assert(480000 * 0 == 0) by (nonlinear_arith);
                        vstd::arithmetic::div_mod::lemma_div_multiples_vanish(0, scale as int);
                        assert((scale as int) * 0 == 0) by (nonlinear_arith);
                    }
                }
                while s2 < nseries
                    invariant
                        request.wf(),
                        nseries == request.series@.len(),
                        forall|q: int|
                            0 <= q < request.series@.len() ==> n_cat <= (
                            #[trigger] request.series@[q]).values().len(),
                        c2 < n_cat,
                        n_cat <= MAX_POINTS,
                        0 < scale <= 1_000_000_000_000_000i64,
                        forall|c: int|
                            0 <= c < n_cat ==> stack_cum(
                                request.series@,
                                c,
                                request.series@.len() as int,
                            ) <= scale as int,
                        0 <= x <= 60000 + 100_000int * 680000 + 680000,
                        totals@.len() == n_cat,
                        forall|c: int| 0 <= c < n_cat ==> 0 <= #[trigger] totals@[c],
                        0 <= bw <= 680000,
                        s2 <= nseries,
                        acc == stack_cum(request.series@, c2 as int, s2 as int),
                        0 <= acc <= scale,
                        0 <= prev_px <= 480000,
                        doc_wf(doc@),
                        doc@.len() >= k + segs0.len(),
                        count_rects(doc@) == segs0.len(),
                        forall|j: int| 0 <= j < segs0.len() ==> doc@[k + j] == segs0[j],
                    decreases nseries - s2,
                {
                    let ser = &request.series[s2];
                    let v = ser.data[c2].value;
                    proof {
                        assert(request.series@[s2 as int].values()[c2 as int] == v);
                        assert(request.series@[s2 as int].wf());
                        lemma_stack_cum_mono(
                            request.series@,
                            c2 as int,
                            s2 as int + 1,
                            nseries as int,
                        );
                    }
                    let cl = if v > 0 {
                        v
                    } else {
                        0
                    };
                    let acc2 = acc + cl;
                    let cur_px = stack_px_exec(acc2, scale);
                    let seg_h = if cur_px >= prev_px {
                        cur_px - prev_px
                    } else {
                        0
                    };
                    if cl > 0 && seg_h > 15000 {
                        let label = if self.show_percentage {
                            // The segment's share of its category, in
                            // tenths of a percent.
                            let total_c = totals[c2];
                            if total_c > 0 {
                                let perm = (((cl as u128) * 1000u128) / (total_c as u128)) as u64;
                                let mut l = u64_str(perm / 10);
                                proof {
                                    reveal_strlit(".");
                                    reveal_strlit("%");
                                }
                                l.append(".");
                                let d = u64_str(perm % 10);
                                l.append(d.as_str());
                                l.append("%");
                                l
                            } else {
                                fmt_milli_1dp(cl)
                            }
                        } else {
                            fmt_milli_1dp(cl)
                        };
                        doc.push(
                            Prim::Text {
                                x: x + bw / 2,
                                y: 540000 - cur_px + seg_h / 2,
                                attrs: String::from_str("class=\"bar-label\""),
                                content: label,
                            },
                        );
                    }
                    acc = acc2;
                    prev_px = cur_px;
                    s2 += 1;
                }
                c2 += 1;
            }
        }
        // The series legend.
        let mut legend = create_legend(&request.series, 650000, 60000, &palette);
        doc.append(&mut legend);
        proof {
            assert(forall|j: int| 0 <= j < segs0.len() ==> doc@[k + j] == segs0[j]);
        }
        doc.push(Prim::Raw { markup: String::from_str("</svg>") });
        proof {
            assert(forall|j: int| 0 <= j < segs0.len() ==> doc@[k + j] == segs0[j]);
        }
        let out = render(&doc);
        proof {
            let ghost series = request.series@;
            let ghost nn = series.len() as int;
            assert(scale as int == stack_scale(max_total as int));
            assert forall|cc: int, ss: int| 0 <= cc < n_cat && 0 <= ss < nn implies stacked_seg_ok(
                #[trigger] doc@[k + cc * nn + ss],
                series,
                pal,
                cc,
                ss,
                n_cat as int,
                stack_scale(max_total as int),
            ) by {
                assert(0 <= cc * nn + ss < segs0.len()) by (nonlinear_arith)
                    requires
                        segs0.len() == (n_cat as int) * nn,
                        0 <= cc < n_cat as int,
                        0 <= ss < nn,
                ;
                assert(doc@[k + cc * nn + ss] == segs0[cc * nn + ss]);
                assert(stacked_seg_ok(
                    segs0[cc * nn + ss],
                    series,
                    pal,
                    cc,
                    ss,
                    n_cat as int,
                    scale as int,
                ));
            }
            assert(pal =~= req_palette(request));
            assert(stacked_doc_ok(series, req_palette(request), n_cat as int, max_total as int, doc@, k as int)) by {
                assert(k + (n_cat as int) * (series.len() as int) <= doc@.len());
            }
        }
        out
    }
}

impl Chart for StackedBarChart {
    fn generate(&self, request: &GraphRequest) -> (svg: String) {
        StackedBarChart::generate(self, request)
    }
}

} // verus!
