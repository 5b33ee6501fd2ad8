//! Grouped bar layout.
//!
//! The X extent is partitioned into one segment per category; sibling
//! series occupy adjacent sub-bars centered in each segment.  Bar height
//! is the value's share of the nice axis maximum mapped onto the
//! 400-pixel plot height, and every bar carries its numeric value above
//! it.  The shortest series bounds the number of categories.

use vstd::prelude::*;
use crate::canvas::{
    count_circles,
    count_paths,
    count_rects,
    doc_wf,
    fill_attr_spec,
    is_rect,
    is_text,
    render,
    render_doc,
    Prim,
};
use crate::charts::{aligned_categories, data_as_series, req_palette, request_palette, Chart};
use crate::models::{GraphRequest, Series, MAX_POINTS, MAX_SERIES, VALUE_LIMIT};
use crate::num::{fmt_milli_0dp, milli_1dp, fmt_milli_1dp};
use crate::scale::{nice_max, nice_max_spec};
use crate::themes::{resolve_color, resolved_color};
use crate::utils::svg::{
    center_text_attrs,
    create_legend,
    create_svg_header,
    generate_x_axis_ticks,
    named_count,
};

verus! {

broadcast use {crate::canvas::lemma_counts_push, crate::canvas::lemma_counts_concat};

/// Grouped bar layout.
pub struct BarChart {}

/// The values the bar chart plots: the series, or the flat data list as a
/// single anonymous series.
pub open spec fn bar_values(request: &GraphRequest) -> Seq<Seq<int>> {
    request.eff_values()
}

/// `m` is the largest plotted value.
pub open spec fn is_bar_max(vals: Seq<Seq<int>>, m: int) -> bool {
    &&& forall|s: int, i: int|
        0 <= s < vals.len() && 0 <= i < vals[s].len() ==> #[trigger] vals[s][i] <= m
    &&& exists|s: int, i: int|
        0 <= s < vals.len() && 0 <= i < vals[s].len() && #[trigger] vals[s][i] == m
}

/// `n` is the number of aligned categories: the shortest series bounds it.
pub open spec fn is_bar_cats(vals: Seq<Seq<int>>, n: int) -> bool {
    &&& forall|s: int| 0 <= s < vals.len() ==> n <= (#[trigger] vals[s]).len()
    &&& exists|s: int| 0 <= s < vals.len() && n == (#[trigger] vals[s]).len()
}

/// The axis scale: the nice maximum of the raw maximum, or one unit when
/// no value is positive (a fixed default scale for degenerate data).
pub open spec fn bar_scale(raw: int) -> int {
    if raw > 0 {
        nice_max_spec(raw)
    } else {
        1000
    }
}

/// A bar's signed height: the value's share of the scale mapped onto the
/// 400-pixel plot height.
pub open spec fn bar_h(v: int, smax: int) -> int {
    if smax > 0 {
        if v >= 0 {
            400000 * v / smax
        } else {
            -(400000 * (-v) / smax)
        }
    } else {
        0
    }
}

/// The left edge of the bar of series `s` at category `i`.
pub open spec fn bar_x(s: int, i: int, n: int, nseries: int) -> int {
    let seg = 640000int / n;
    let gw = if nseries > 1 {
        seg * 7 / 10
    } else {
        seg * 8 / 10
    };
    let ew = gw / nseries;
    i * seg + (seg - gw) / 2 + s * ew
}

/// The width of one bar.
pub open spec fn bar_w(n: int, nseries: int) -> int {
    let seg = 640000int / n;
    let gw = if nseries > 1 {
        seg * 7 / 10
    } else {
        seg * 8 / 10
    };
    gw / nseries
}

/// The fill of the bar of series `s` at category `i`: the point color,
/// then the series color, then the request's palette entry; the flat
/// shorthand gets the default palette's first color.
pub open spec fn bar_fill(request: &GraphRequest, s: int, i: int) -> Seq<char> {
    if request.series@.len() > 0 {
        resolved_color(
            request.series@[s].data@[i].color,
            request.series@[s].color,
            req_palette(request),
            s,
        )
    } else {
        "#0000FF"@
    }
}

/// One bar with its resolved fill and its value label.
pub open spec fn bar_ok(
    rect: Prim,
    label: Prim,
    request: &GraphRequest,
    s: int,
    i: int,
    n: int,
    smax: int,
) -> bool {
    let vals = bar_values(request);
    let x = bar_x(s, i, n, vals.len() as int);
    let h = bar_h(vals[s][i], smax);
    let w = bar_w(n, vals.len() as int);
    &&& is_rect(rect, x, 450000 - h, w, h, fill_attr_spec(bar_fill(request, s, i)))
    &&& is_text(label, x + w / 2, 450000 - h - 5000, center_text_attrs(), milli_1dp(vals[s][i]))
}

/// One bar as the marks builder sees it: over the concrete series list
/// and palette it was handed.
pub open spec fn bar_mark_ok(
    rect: Prim,
    label: Prim,
    series: Seq<Series>,
    pal: Seq<Seq<char>>,
    s: int,
    i: int,
    n: int,
    smax: int,
) -> bool {
    let x = bar_x(s, i, n, series.len() as int);
    let h = bar_h(series[s].values()[i], smax);
    let w = bar_w(n, series.len() as int);
    &&& is_rect(
        rect,
        x,
        450000 - h,
        w,
        h,
        fill_attr_spec(resolved_color(series[s].data@[i].color, series[s].color, pal, s)),
    )
    &&& is_text(
        label,
        x + w / 2,
        450000 - h - 5000,
        center_text_attrs(),
        milli_1dp(series[s].values()[i]),
    )
}

/// A document that holds a rendered bar chart: somewhere in it stand, for
/// each series and category, a bar with its resolved fill and its value
/// label — and the bars (plus the legend swatches of a multi-series
/// request) are the only rectangles the document holds.
pub open spec fn bar_doc_ok(
    request: &GraphRequest,
    n: int,
    smax: int,
    doc: Seq<Prim>,
    k: int,
) -> bool {
    let vals = bar_values(request);
    &&& 0 <= k
    &&& k + 2 * (vals.len() * n) <= doc.len()
    &&& smax >= 1
    &&& forall|s: int, i: int|
        0 <= s < vals.len() && 0 <= i < n ==> bar_ok(
            #[trigger] doc[k + 2 * (s * n + i)],
            doc[k + 2 * (s * n + i) + 1],
            request,
            s,
            i,
            n,
            smax,
        )
    &&& count_rects(doc) == vals.len() * n + (if vals.len() > 1 {
        named_count(request.series@)
    } else {
        0int
    })
}

/// Computes a bar's signed height.
pub fn bar_h_exec(v: i64, smax: i64) -> (r: i64)
    requires
        -VALUE_LIMIT <= v <= VALUE_LIMIT,
        1 <= smax <= 10_000_000_000_000i64,
    ensures
        r == bar_h(v as int, smax as int),
        -400_000_000_000_000_000i64 <= r <= 400_000_000_000_000_000i64,
{
    let mag: u64 = if v >= 0 {
        v as u64
    } else {
        (-v) as u64
    };
    proof {
        let m = mag as int;
        assert(0 <= 400000 * m <= 400000 * 1_000_000_000_000int) by (nonlinear_arith)
            requires
                0 <= m <= 1_000_000_000_000int,
        ;
        vstd::arithmetic::div_mod::lemma_div_pos_is_pos(400000 * m, smax as int);
        vstd::arithmetic::div_mod::lemma_div_is_ordered(
            400000 * m,
            400000 * 1_000_000_000_000int,
            smax as int,
        );
        vstd::arithmetic::div_mod::lemma_div_is_ordered_by_denominator(
            400000 * 1_000_000_000_000int,
            1,
            smax as int,
        );
        vstd::arithmetic::div_mod::lemma_div_basics_1(400000 * 1_000_000_000_000int);
    }
    let h = ((400000u64 * mag) / (smax as u64)) as i64;
    if v >= 0 {
        h
    } else {
        -h
    }
}

/// The bars with their value labels, series-major: the bar of series `s`
/// at category `i` stands at index `2 * (s * n + i)`.
fn bar_marks(series: &Vec<Series>, n: usize, smax: i64, palette: &Vec<String>) -> (r: Vec<Prim>)
    requires
        1 <= series@.len() <= MAX_SERIES,
        forall|q: int| 0 <= q < series@.len() ==> (#[trigger] series@[q]).wf(),
        forall|q: int| 0 <= q < series@.len() ==> n <= (#[trigger] series@[q]).values().len(),
        1 <= n <= MAX_POINTS,
        1 <= smax <= 10_000_000_000_000i64,
        palette@.len() > 0,
    ensures
        r@.len() == 2 * (series@.len() * n),
        count_rects(r@) == series@.len() * n,
        count_circles(r@) == 0,
        count_paths(r@) == 0,
        forall|s: int, i: int|
            0 <= s < series@.len() && 0 <= i < n ==> bar_mark_ok(
                #[trigger] r@[2 * (s * n + i)],
                r@[2 * (s * n + i) + 1],
                series@,
                palette@.map_values(|c: String| c@),
                s,
                i,
                n as int,
                smax as int,
            ),
        doc_wf(r@),
{
    let ghost vals = series@.map_values(|q: Series| q.values());
    let ghost pal = palette@.map_values(|c: String| c@);
    let nseries = series.len();
    let seg = 640000i64 / (n as i64);
    let gw = if nseries > 1 {
        seg * 7 / 10
    } else {
        seg * 8 / 10
    };
    let ew = gw / (nseries as i64);
    let half = (seg - gw) / 2;
    let mut r: Vec<Prim> = Vec::new();
    let mut s: usize = 0;
    while s < nseries
        invariant
            1 <= series@.len() <= MAX_SERIES,
            nseries == series@.len(),
            vals == series@.map_values(|q: Series| q.values()),
            vals.len() == series@.len(),
            forall|q: int| 0 <= q < series@.len() ==> (#[trigger] series@[q]).wf(),
            forall|q: int| 0 <= q < series@.len() ==> n <= (#[trigger] series@[q]).values().len(),
            1 <= n <= MAX_POINTS,
            1 <= smax <= 10_000_000_000_000i64,
            palette@.len() > 0,
            seg == 640000int / n as int,
            0 <= seg <= 640000,
            gw == (if vals.len() > 1 {
                (640000int / n as int) * 7 / 10
            } else {
                (640000int / n as int) * 8 / 10
            }),
            0 <= gw <= seg,
            ew == (gw as int) / (nseries as int),
            ew == bar_w(n as int, vals.len() as int),
            0 <= ew <= gw,
            half == (seg - gw) / 2,
            0 <= half <= seg,
            pal == palette@.map_values(|c: String| c@),
            s <= nseries,
            r@.len() == 2 * ((s as int) * (n as int)),
            count_rects(r@) == (s as int) * (n as int),
            count_circles(r@) == 0,
            count_paths(r@) == 0,
            forall|q: int, i: int|
                0 <= q < s && 0 <= i < n ==> bar_mark_ok(
                    #[trigger] r@[2 * (q * n + i)],
                    r@[2 * (q * n + i) + 1],
                    series@,
                    pal,
                    q,
                    i,
                    n as int,
                    smax as int,
                ),
            doc_wf(r@),
        decreases nseries - s,
    {
        let ser = &series[s];
        let mut i: usize = 0;
        while i < n
            invariant
                1 <= series@.len() <= MAX_SERIES,
                nseries == series@.len(),
                vals == series@.map_values(|q: Series| q.values()),
                vals.len() == series@.len(),
                forall|q: int| 0 <= q < series@.len() ==> (#[trigger] series@[q]).wf(),
                forall|q: int|
                    0 <= q < series@.len() ==> n <= (#[trigger] series@[q]).values().len(),
                1 <= n <= MAX_POINTS,
                1 <= smax <= 10_000_000_000_000i64,
                palette@.len() > 0,
                s < nseries,
                *ser == series@[s as int],
                seg == 640000int / n as int,
                0 <= seg <= 640000,
                gw == (if vals.len() > 1 {
                    (640000int / n as int) * 7 / 10
                } else {
                    (640000int / n as int) * 8 / 10
                }),
                0 <= gw <= seg,
                ew == (gw as int) / (nseries as int),
                ew == bar_w(n as int, vals.len() as int),
                0 <= ew <= gw,
                half == (seg - gw) / 2,
                0 <= half <= seg,
                pal == palette@.map_values(|c: String| c@),
                i <= n,
                r@.len() == 2 * ((s as int) * (n as int) + i),
                count_rects(r@) == (s as int) * (n as int) + i,
                count_circles(r@) == 0,
                count_paths(r@) == 0,
                forall|q: int, j: int|
                    0 <= q < s && 0 <= j < n ==> bar_mark_ok(
                        #[trigger] r@[2 * (q * n + j)],
                        r@[2 * (q * n + j) + 1],
                        series@,
                        pal,
                        q,
                        j,
                        n as int,
                        smax as int,
                    ),
                forall|j: int|
                    0 <= j < i ==> bar_mark_ok(
                        #[trigger] r@[2 * ((s as int) * n + j)],
                        r@[2 * ((s as int) * n + j) + 1],
                        series@,
                        pal,
                        s as int,
                        j,
                        n as int,
                        smax as int,
                    ),
                doc_wf(r@),
            decreases n - i,
        {
            let point = &ser.data[i];
            let v = point.value;
            proof {
                assert(series@[s as int].values()[i as int] == v);
                assert(series@[s as int].wf());
                assert(vals[s as int] == series@[s as int].values());
                assert(0 <= (i as int) * (seg as int) <= 100_000int * 640000) by (nonlinear_arith)
                    requires
                        0 <= i <= 100_000,
                        0 <= seg <= 640000,
                ;
                assert(0 <= (s as int) * (ew as int) <= 1000int * 640000) by (nonlinear_arith)
                    requires
                        0 <= s <= 1000,
                        0 <= ew <= 640000,
                ;
            }
            let x = (i as i64) * seg + half + (s as i64) * ew;
            let h = bar_h_exec(v, smax);
            let color = crate::themes::resolve_color(&point.color, &ser.color, palette, s);
            let ghost r0 = r@;
            r.push(
                Prim::Rect {
                    x,
                    y: 450000 - h,
                    w: ew,
                    h,
                    attrs: crate::canvas::fill_attr(color),
                },
            );
            r.push(
                Prim::Text {
                    x: x + ew / 2,
                    y: 450000 - h - 5000,
                    attrs: String::from_str(
                        "text-anchor=\"middle\" font-family=\"M PLUS 1p\" font-size=\"12\"",
                    ),
                    content: fmt_milli_1dp(v),
                },
            );
            proof {
                assert(bar_x(s as int, i as int, n as int, series@.len() as int) == x);
                assert(ser.data@[i as int] == series@[s as int].data@[i as int]);
                assert(bar_mark_ok(
                    r@[2 * ((s as int) * n + i as int)],
                    r@[2 * ((s as int) * n + i as int) + 1],
                    series@,
                    pal,
                    s as int,
                    i as int,
                    n as int,
                    smax as int,
                ));
                assert forall|q: int, j: int| 0 <= q < s && 0 <= j < n implies bar_mark_ok(
                    #[trigger] r@[2 * (q * n + j)],
                    r@[2 * (q * n + j) + 1],
                    series@,
                    pal,
                    q,
                    j,
                    n as int,
                    smax as int,
                ) by {
                    assert(0 <= 2 * (q * n + j) && 2 * (q * n + j) + 1 < r0.len())
                        by (nonlinear_arith)
                        requires
                            r0.len() == 2 * ((s as int) * (n as int) + i),
                            0 <= q < s as int,
                            0 <= j < n as int,
                            0 <= i,
                            n >= 1,
                    ;
                    assert(r@[2 * (q * n + j)] == r0[2 * (q * n + j)]);
                    assert(r@[2 * (q * n + j) + 1] == r0[2 * (q * n + j) + 1]);
                    assert(bar_mark_ok(
                        r0[2 * (q * n + j)],
                        r0[2 * (q * n + j) + 1],
                        series@,
                        pal,
                        q,
                        j,
                        n as int,
                        smax as int,
                    ));
                }
                assert forall|j: int| 0 <= j < i + 1 implies bar_mark_ok(
                    #[trigger] r@[2 * ((s as int) * n + j)],
                    r@[2 * ((s as int) * n + j) + 1],
                    series@,
                    pal,
                    s as int,
                    j,
                    n as int,
                    smax as int,
                ) by {
                    if j < i {
                        assert(r@[2 * ((s as int) * n + j)] == r0[2 * ((s as int) * n + j)]);
                        assert(r@[2 * ((s as int) * n + j) + 1] == r0[2 * ((s as int) * n + j)
                            + 1]);
                        assert(bar_mark_ok(
                            r0[2 * ((s as int) * n + j)],
                            r0[2 * ((s as int) * n + j) + 1],
                            series@,
                            pal,
                            s as int,
                            j,
                            n as int,
                            smax as int,
                        ));
                    }
                }
            }
            i += 1;
        }
        proof {
            assert(2 * ((s as int) * (n as int) + (n as int)) == 2 * ((s as int + 1) * (
            n as int))) by (nonlinear_arith);
        }
        s += 1;
    }
    r
}

impl BarChart {
    /// Lays out a grouped bar chart.  A request without a complete
    /// category yields an empty drawing; otherwise the result renders a
    /// document holding, for each series and category, a bar whose height
    /// is the value's share of the nice axis maximum, with its value
    /// labelled above it.
    pub fn generate(&self, request: &GraphRequest) -> (r: String)
        requires
            request.wf(),
        ensures
            exists|n: int|
                {
                    &&& #[trigger] is_bar_cats(bar_values(request), n)
                    &&& (n == 0 ==> r@ == Seq::<char>::empty())
                    &&& (n > 0 ==> exists|raw: int, doc: Seq<Prim>, k: int|
                        #[trigger] bar_doc_ok(request, n, bar_scale(raw), doc, k) && is_bar_max(
                            bar_values(request),
                            raw,
                        ) && r@ == render_doc(doc))
                },
    {
        let ghost vals = bar_values(request);
        let fallback: Vec<Series> = if request.series.len() == 0 {
            data_as_series(&request.data, Some(String::from_str("#0000FF")))
        } else {
            Vec::new()
        };
        let series: &Vec<Series> = if request.series.len() > 0 {
            &request.series
        } else {
            &fallback
        };
        proof {
            assert(series@.map_values(|q: Series| q.values()) =~= vals);
        }
        proof {
            if request.series@.len() > 0 {
                assert(series@.map_values(|q: Series| q.values()) =~= vals);
            }
            assert(forall|q: int| 0 <= q < series@.len() ==> (#[trigger] series@[q]).wf()) by {
                if request.series@.len() == 0 {
                    assert(series@[0].values() =~= request.data@.map_values(|v: i64| v as int));
                    assert(forall|j: int|
                        0 <= j < series@[0].values().len() ==> #[trigger] series@[0].values()[j]
                            == request.data@[j] as int);
                }
            }
            assert(forall|q: int|
                0 <= q < series@.len() ==> (#[trigger] vals[q]) == series@[q].values());
        }
        let n = aligned_categories(series);
        proof {
            assert forall|q: int| 0 <= q < vals.len() implies n as int <= (
            #[trigger] vals[q]).len() by {
                assert(vals[q] == series@[q].values());
            }
            let w = choose|q: int|
                0 <= q < series@.len() && n == (#[trigger] series@[q].values()).len();
            assert(vals[w] == series@[w].values());
            assert(is_bar_cats(vals, n as int));
        }
        if n == 0 {
            return String::new();
        }
        let raw = crate::charts::get_max_value(series);
        proof {
            assert(raw > i64::MIN) by {
                assert(series@[0].values().len() >= n >= 1);
                assert(series@[0].values()[0] <= raw);
                assert(series@[0].wf());
            }
            assert forall|q: int, i: int|
                0 <= q < vals.len() && 0 <= i < vals[q].len() implies #[trigger] vals[q][i]
                <= raw as int by {
                assert(vals[q] == series@[q].values());
            }
            let (ws, wi) = choose|ws: int, wi: int|
                0 <= ws < series@.len() && 0 <= wi < series@[ws].values().len() && #[trigger] series@[ws].values()[wi] == raw;
            assert(vals[ws] == series@[ws].values());
            assert(vals[ws][wi] == raw as int);
            assert(is_bar_max(vals, raw as int));
        }
        let smax = if raw > 0 {
            nice_max(raw)
        } else {
            1000
        };
        let mut doc: Vec<Prim> = Vec::new();
        doc.push(
            Prim::Raw {
                markup: create_svg_header(
                    match &request.title {
                        Some(t) => Some(t.as_str()),
                        None => None,
                    },
                    match &request.x_label {
                        Some(t) => Some(t.as_str()),
                        None => None,
                    },
                    match &request.y_label {
                        Some(t) => Some(t.as_str()),
                        None => None,
                    },
                ),
            },
        );
        // Y-axis ticks labelled with rounded even shares of the scale.
        let mut t: i64 = 0;
        while t <= 5
            invariant
                0 <= t <= 6,
                1 <= smax <= 10_000_000_000_000i64,
                doc_wf(doc@),
                count_rects(doc@) == 0,
                count_circles(doc@) == 0,
                count_paths(doc@) == 0,
            decreases 6 - t,
        {
            let y = 450000 - 80000 * t;
            doc.push(
                Prim::Line {
                    x1: -5000,
                    y1: y,
                    x2: 0,
                    y2: y,
                    attrs: String::from_str("stroke=\"black\" stroke-width=\"1\""),
                },
            );
            proof {
                assert(0 <= (smax as int) * (t as int) <= 10_000_000_000_000int * 5)
                    by (nonlinear_arith)
                    requires
                        0 <= smax <= 10_000_000_000_000i64,
                        0 <= t <= 5,
                ;
            }
            let tv = (((smax as u128) * (t as u128)) / 5u128) as i64;
            doc.push(
                Prim::Text {
                    x: -10000,
                    y: y + 4000,
                    attrs: String::from_str(
                        "text-anchor=\"end\" font-family=\"M PLUS 1p\" font-size=\"12\"",
                    ),
                    content: fmt_milli_0dp(tv),
                },
            );
            t += 1;
        }
        let mut ticks = generate_x_axis_ticks(n);
        doc.append(&mut ticks);
        let palette = request_palette(request);
        let ghost pal = palette@.map_values(|c: String| c@);
        let ghost k = doc@.len();
        let mut marks = bar_marks(series, n, smax, &palette);
        let ghost marks0 = marks@;
        doc.append(&mut marks);
        proof {
            assert(forall|j: int| 0 <= j < marks0.len() ==> doc@[k + j] == marks0[j]);
        }
        if series.len() > 1 {
            let mut legend = create_legend(series, 660000, 50000, &palette);
            doc.append(&mut legend);
            proof {
                assert(forall|j: int| 0 <= j < marks0.len() ==> doc@[k + j] == marks0[j]);
            }
        }
        doc.push(Prim::Raw { markup: String::from_str("</g></svg>") });
        proof {
            assert(forall|j: int| 0 <= j < marks0.len() ==> doc@[k + j] == marks0[j]);
        }
        let out = render(&doc);
        proof {
            let nn = vals.len() as int;
            assert(pal =~= req_palette(request));
            assert forall|s: int, i: int| 0 <= s < nn && 0 <= i < n implies bar_ok(
                #[trigger] doc@[k + 2 * (s * n + i)],
                doc@[k + 2 * (s * n + i) + 1],
                request,
                s,
                i,
                n as int,
                bar_scale(raw as int),
            ) by {
                assert(0 <= 2 * (s * n + i) && 2 * (s * n + i) + 1 < marks0.len())
                    by (nonlinear_arith)
                    requires
                        marks0.len() == 2 * (nn * (n as int)),
                        0 <= s < nn,
                        0 <= i < n as int,
                ;
                assert(doc@[k + 2 * (s * n + i)] == marks0[2 * (s * n + i)]);
                assert(doc@[k + 2 * (s * n + i) + 1] == marks0[2 * (s * n + i) + 1]);
                assert(bar_mark_ok(
                    marks0[2 * (s * n + i)],
                    marks0[2 * (s * n + i) + 1],
                    series@,
                    pal,
                    s,
                    i,
                    n as int,
                    smax as int,
                ));
                assert(vals[s] == series@[s].values());
                assert(bar_fill(request, s, i) == resolved_color(
                    series@[s].data@[i].color,
                    series@[s].color,
                    pal,
                    s,
                )) by {
                    if request.series@.len() > 0 {
                        assert(series@[s] == request.series@[s]);
                    } else {
                        assert(series@[s].data@[i].color is None);
                        assert(series@[s].color matches Option::Some(c) && c@ == "#0000FF"@);
                    }
                }
            }
            assert(count_rects(doc@) == nn * (n as int) + (if nn > 1 {
                named_count(request.series@)
            } else {
                0int
            })) by {
                if nn > 1 {
                    assert(series@ == request.series@);
                }
            }
            assert(bar_doc_ok(request, n as int, bar_scale(raw as int), doc@, k as int)) by {
                assert(k + 2 * (nn * (n as int)) <= doc@.len());
            }
        }
        out
    }
}

impl Chart for BarChart {
    fn generate(&self, request: &GraphRequest) -> (svg: String) {
        BarChart::generate(self, request)
    }
}

} // verus!
