//! Scatter layout.
//!
//! Points only, no connecting path: X positions come from the category
//! index and Y positions from the value's share of the nice axis maximum.
//! Every point carries its value label above it.

use vstd::prelude::*;
use crate::canvas::{doc_wf, fill_attr_spec, is_circle, is_text, render, render_doc, Prim};
use crate::charts::{
    aligned_categories,
    data_as_series,
    is_vals_max,
    req_palette,
    request_palette,
    Chart,
};
use crate::charts::bar::{bar_h, bar_scale};
use crate::models::{GraphRequest, Series, MAX_POINTS, MAX_SERIES};
use crate::num::{milli_1dp, fmt_milli_1dp};
use crate::scale::nice_max;
use crate::themes::{resolve_color, resolved_color};
use crate::utils::svg::{
    center_text_attrs,
    create_legend,
    create_svg_header,
    generate_x_axis_ticks,
    generate_y_axis_ticks,
};

verus! {

/// Scatter layout.
pub struct ScatterChart {}

/// The X spacing between successive points.
pub open spec fn scatter_seg(n: int) -> int {
    if n > 1 {
        640000int / (n - 1)
    } else {
        0
    }
}

/// The fill of the point of series `s` at category `i`: the point color,
/// then the series color, then the request's palette entry; the flat
/// shorthand resolves straight from the palette.
pub open spec fn scatter_fill(request: &GraphRequest, s: int, i: int) -> Seq<char> {
    if request.series@.len() > 0 {
        resolved_color(
            request.series@[s].data@[i].color,
            request.series@[s].color,
            req_palette(request),
            s,
        )
    } else {
        req_palette(request)[s % req_palette(request).len() as int]
    }
}

/// One scatter point with its resolved fill and its value label.
pub open spec fn scatter_ok(
    circle: Prim,
    label: Prim,
    request: &GraphRequest,
    s: int,
    i: int,
    n: int,
    smax: int,
) -> bool {
    let vals = request.eff_values();
    let x = i * scatter_seg(n);
    let y = 450000 - bar_h(vals[s][i], smax);
    &&& is_circle(circle, x, y, 4000, fill_attr_spec(scatter_fill(request, s, i)))
    &&& is_text(label, x, y - 5000, center_text_attrs(), milli_1dp(vals[s][i]))
}

/// A document that holds a rendered scatter chart: somewhere in it stand,
/// for each series and category, a point circle and its value label.
pub open spec fn scatter_doc_ok(
    request: &GraphRequest,
    n: int,
    smax: int,
    doc: Seq<Prim>,
    k: int,
) -> bool {
    let vals = request.eff_values();
    &&& 0 <= k
    &&& k + 2 * (vals.len() * n) <= doc.len()
    &&& smax >= 1
    &&& forall|s: int, i: int|
        0 <= s < vals.len() && 0 <= i < n ==> scatter_ok(
            #[trigger] doc[k + 2 * (s * n + i)],
            doc[k + 2 * (s * n + i) + 1],
            request,
            s,
            i,
            n,
            smax,
        )
}

impl ScatterChart {
    /// Lays out a scatter chart.  A request without a complete category
    /// yields an empty drawing; otherwise the result renders a document
    /// holding one circle and value label per series and category.
    pub fn generate(&self, request: &GraphRequest) -> (r: String)
        requires
            request.wf(),
        ensures
            exists|n: int|
                {
                    &&& #[trigger] crate::charts::bar::is_bar_cats(request.eff_values(), n)
                    &&& (n == 0 ==> r@ == Seq::<char>::empty())
                    &&& (n > 0 ==> exists|raw: int, doc: Seq<Prim>, k: int|
                        #[trigger] scatter_doc_ok(request, n, bar_scale(raw), doc, k) && is_vals_max(request.eff_values(), raw) && r@ == render_doc(doc))
                },
    {
        let ghost vals = request.eff_values();
        let fb: Vec<Series> = if request.series.len() == 0 {
            data_as_series(&request.data, None)
        } else {
            Vec::new()
        };
        let series: &Vec<Series> = if request.series.len() > 0 {
            &request.series
        } else {
            &fb
        };
        proof {
            assert(series@.map_values(|q: Series| q.values()) =~= vals);
            assert(forall|q: int|
                0 <= q < series@.len() ==> (#[trigger] vals[q]) == series@[q].values());
            assert(forall|q: int| 0 <= q < series@.len() ==> (#[trigger] series@[q]).wf()) by {
                if request.series@.len() == 0 {
                    assert(series@[0].values() =~= request.data@.map_values(|v: i64| v as int));
                    assert(forall|j: int|
                        0 <= j < series@[0].values().len() ==> #[trigger] series@[0].values()[j]
                            == request.data@[j] as int);
                }
            }
        }
        let n = aligned_categories(series);
        proof {
            assert forall|q: int| 0 <= q < vals.len() implies n as int <= (
            #[trigger] vals[q]).len() by {
                assert(vals[q] == series@[q].values());
            }
            let w = choose|q: int|
                0 <= q < series@.len() && n == (#[trigger] series@[q].values()).len();
            assert(vals[w] == series@[w].values());
            assert(crate::charts::bar::is_bar_cats(vals, n as int));
        }
        if n == 0 {
            return String::new();
        }
        let raw = crate::charts::get_max_value(series);
        proof {
            assert(raw > i64::MIN) by {
                assert(series@[0].values().len() >= n >= 1);
                assert(series@[0].values()[0] <= raw);
                assert(series@[0].wf());
            }
            assert forall|q: int, i: int|
                0 <= q < vals.len() && 0 <= i < vals[q].len() implies #[trigger] vals[q][i]
                <= raw as int by {
                assert(vals[q] == series@[q].values());
            }
            let (ws, wi) = choose|ws: int, wi: int|
                0 <= ws < series@.len() && 0 <= wi < series@[ws].values().len()
                    && #[trigger] series@[ws].values()[wi] == raw;
            assert(vals[ws] == series@[ws].values());
            assert(is_vals_max(vals, raw as int));
        }
        let smax = if raw > 0 {
            nice_max(raw)
        } else {
            1000
        };
        let seg: i64 = if n > 1 {
            640000 / ((n as i64) - 1)
        } else {
            0
        };
        let mut doc: Vec<Prim> = Vec::new();
        doc.push(
            Prim::Raw {
                markup: create_svg_header(
                    match &request.title {
                        Some(t) => Some(t.as_str()),
                        None => None,
                    },
                    match &request.x_label {
                        Some(t) => Some(t.as_str()),
                        None => None,
                    },
                    match &request.y_label {
                        Some(t) => Some(t.as_str()),
                        None => None,
                    },
                ),
            },
        );
        let mut yticks = generate_y_axis_ticks(smax);
        doc.append(&mut yticks);
        let mut xticks = generate_x_axis_ticks(n);
        doc.append(&mut xticks);
        let palette = request_palette(request);
        let ghost pal = palette@.map_values(|x: String| x@);
        let ghost k = doc@.len();
        let nseries = series.len();
        let mut s: usize = 0;
        while s < nseries
            invariant
                nseries == series@.len(),
                1 <= nseries <= MAX_SERIES,
                vals == series@.map_values(|q: Series| q.values()),
                vals.len() == series@.len(),
                forall|q: int| 0 <= q < series@.len() ==> (#[trigger] series@[q]).wf(),
                forall|q: int|
                    0 <= q < series@.len() ==> n <= (#[trigger] series@[q]).values().len(),
                1 <= n <= MAX_POINTS,
                1 <= smax <= 10_000_000_000_000i64,
                seg as int == scatter_seg(n as int),
                0 <= seg <= 640000,
                palette@.len() > 0,
                pal == palette@.map_values(|x: String| x@),
                pal =~= req_palette(request),
                request.wf(),
                request.series@.len() > 0 ==> series@ == request.series@,
                request.series@.len() == 0 ==> nseries == 1,
                vals == request.eff_values(),
                s <= nseries,
                doc@.len() == k + 2 * ((s as int) * (n as int)),
                doc_wf(doc@),
                forall|q: int, j: int|
                    0 <= q < s && 0 <= j < n ==> scatter_ok(
                        #[trigger] doc@[k + 2 * (q * n + j)],
                        doc@[k + 2 * (q * n + j) + 1],
                        request,
                        q,
                        j,
                        n as int,
                        smax as int,
                    ),
            decreases nseries - s,
        {
            let ser = &series[s];
            let mut i: usize = 0;
            while i < n
                invariant
                    nseries == series@.len(),
                    s < nseries,
                    *ser == series@[s as int],
                    vals.len() == series@.len(),
                    vals[s as int] == series@[s as int].values(),
                    series@[s as int].wf(),
                    forall|q: int|
                        0 <= q < series@.len() ==> n <= (#[trigger] series@[q]).values().len(),
                    1 <= n <= MAX_POINTS,
                    1 <= smax <= 10_000_000_000_000i64,
                    seg as int == scatter_seg(n as int),
                    0 <= seg <= 640000,
                    palette@.len() > 0,
                    pal == palette@.map_values(|x: String| x@),
                    pal =~= req_palette(request),
                    request.series@.len() > 0 ==> series@ == request.series@,
                    request.series@.len() == 0 ==> s == 0,
                    vals == request.eff_values(),
                    request.wf(),
                    i <= n,
                    doc@.len() == k + 2 * ((s as int) * (n as int) + i),
                    doc_wf(doc@),
                    forall|q: int, j: int|
                        0 <= q < s && 0 <= j < n ==> scatter_ok(
                            #[trigger] doc@[k + 2 * (q * n + j)],
                            doc@[k + 2 * (q * n + j) + 1],
                            request,
                            q,
                            j,
                            n as int,
                            smax as int,
                        ),
                    forall|j: int|
                        0 <= j < i ==> scatter_ok(
                            #[trigger] doc@[k + 2 * ((s as int) * n + j)],
                            doc@[k + 2 * ((s as int) * n + j) + 1],
                            request,
                            s as int,
                            j,
                            n as int,
                            smax as int,
                        ),
                decreases n - i,
            {
                let v = ser.data[i].value;
                proof {
                    assert(series@[s as int].values()[i as int] == v);
                    assert(0 <= (i as int) * (seg as int) <= 100_000int * 640000)
                        by (nonlinear_arith)
                        requires
                            0 <= i <= 100_000,
                            0 <= seg <= 640000,
                    ;
                }
                let x = (i as i64) * seg;
                let h = crate::charts::bar::bar_h_exec(v, smax);
                let y = 450000 - h;
                let point = &ser.data[i];
                let color: &str = if request.series.len() > 0 {
                    resolve_color(&point.color, &ser.color, &palette, s)
                } else {
                    palette[s % palette.len()].as_str()
                };
                proof {
                    assert(color@ == scatter_fill(request, s as int, i as int)) by {
                        if request.series@.len() > 0 {
                            assert(*ser == request.series@[s as int]);
                            assert(point.color == request.series@[s as int].data@[i as int].color);
                        }
                        assert(pal =~= req_palette(request));
                    }
                }
                let ghost d0 = doc@;
                doc.push(Prim::Circle { cx: x, cy: y, r: 4000, attrs: crate::canvas::fill_attr(color) });
                doc.push(
                    Prim::Text {
                        x,
                        y: y - 5000,
                        attrs: String::from_str(
                            "text-anchor=\"middle\" font-family=\"M PLUS 1p\" font-size=\"12\"",
                        ),
                        content: fmt_milli_1dp(v),
                    },
                );
                proof {
                    assert(scatter_ok(
                        doc@[k + 2 * ((s as int) * n + i as int)],
                        doc@[k + 2 * ((s as int) * n + i as int) + 1],
                        request,
                        s as int,
                        i as int,
                        n as int,
                        smax as int,
                    ));
                    assert forall|q: int, j: int| 0 <= q < s && 0 <= j < n implies scatter_ok(
                        #[trigger] doc@[k + 2 * (q * n + j)],
                        doc@[k + 2 * (q * n + j) + 1],
                        request,
                        q,
                        j,
                        n as int,
                        smax as int,
                    ) by {
                        assert(0 <= 2 * (q * n + j) && 2 * (q * n + j) + 1 < d0.len() - k)
                            by (nonlinear_arith)
                            requires
                                d0.len() - k == 2 * ((s as int) * (n as int) + i),
                                0 <= q < s as int,
                                0 <= j < n as int,
                                0 <= i,
                                n >= 1,
                        ;
                        assert(doc@[k + 2 * (q * n + j)] == d0[k + 2 * (q * n + j)]);
                        assert(doc@[k + 2 * (q * n + j) + 1] == d0[k + 2 * (q * n + j) + 1]);
                        assert(scatter_ok(
                            d0[k + 2 * (q * n + j)],
                            d0[k + 2 * (q * n + j) + 1],
                            request,
                            q,
                            j,
                            n as int,
                            smax as int,
                        ));
                    }
                    assert forall|j: int| 0 <= j < i + 1 implies scatter_ok(
                        #[trigger] doc@[k + 2 * ((s as int) * n + j)],
                        doc@[k + 2 * ((s as int) * n + j) + 1],
                        request,
                        s as int,
                        j,
                        n as int,
                        smax as int,
                    ) by {
                        if j < i {
                            assert(doc@[k + 2 * ((s as int) * n + j)] == d0[k + 2 * ((s as int) * n
                                + j)]);
                            assert(doc@[k + 2 * ((s as int) * n + j) + 1] == d0[k + 2 * ((
                            s as int) * n + j) + 1]);
                            assert(scatter_ok(
                                d0[k + 2 * ((s as int) * n + j)],
                                d0[k + 2 * ((s as int) * n + j) + 1],
                                request,
                                s as int,
                                j,
                                n as int,
                                smax as int,
                            ));
                        }
                    }
                }
                i += 1;
            }
            proof {
                assert(2 * ((s as int) * (n as int) + (n as int)) == 2 * ((s as int + 1) * (
                n as int))) by (nonlinear_arith);
            }
            s += 1;
        }
        let ghost dm = doc@;
        if request.series.len() > 0 {
            let palette = crate::charts::request_palette(request);
            let mut legend = create_legend(&request.series, 660000, 50000, &palette);
            doc.append(&mut legend);
        }
        doc.push(Prim::Raw { markup: String::from_str("</g></svg>") });
        let out = render(&doc);
        proof {
            let nn = vals.len() as int;
            assert forall|sq: int, i: int| 0 <= sq < nn && 0 <= i < n implies scatter_ok(
                #[trigger] doc@[k + 2 * (sq * n + i)],
                doc@[k + 2 * (sq * n + i) + 1],
                request,
                sq,
                i,
                n as int,
                bar_scale(raw as int),
            ) by {
                assert(0 <= 2 * (sq * n + i) && 2 * (sq * n + i) + 1 < 2 * (nn * (n as int)))
                    by (nonlinear_arith)
                    requires
                        0 <= sq < nn,
                        0 <= i < n as int,
                ;
                assert(doc@[k + 2 * (sq * n + i)] == dm[k + 2 * (sq * n + i)]);
                assert(doc@[k + 2 * (sq * n + i) + 1] == dm[k + 2 * (sq * n + i) + 1]);
                assert(scatter_ok(
                    dm[k + 2 * (sq * n + i)],
                    dm[k + 2 * (sq * n + i) + 1],
                    request,
                    sq,
                    i,
                    n as int,
                    smax as int,
                ));
            }
            assert(scatter_doc_ok(request, n as int, bar_scale(raw as int), doc@, k as int)) by {
                assert(k + 2 * (nn * (n as int)) <= doc@.len());
            }
        }
        out
    }
}

impl Chart for ScatterChart {
    fn generate(&self, request: &GraphRequest) -> (svg: String) {
        ScatterChart::generate(self, request)
    }
}

} // verus!
