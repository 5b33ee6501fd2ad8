//! Multi-line layout.
//!
//! One path per series in the 800x600 frame with 60-pixel margins; X
//! positions come from the point index scaled over the longest series,
//! and Y positions from the shared min/max value range.  A flat value
//! range draws every line on the vertical midline of the plot rather
//! than failing, and a flat data list is accepted as the single-series
//! shorthand.  Lines may be smoothed with a best-effort quadratic
//! approximation.

use vstd::prelude::*;
use crate::canvas::{
    doc_wf,
    is_path_d,
    is_raw,
    path_from_points,
    path_pts,
    render,
    render_doc,
    stroke_attr,
    Prim,
};
use crate::charts::{data_as_series, is_vals_max, is_vals_min, request_palette, Chart};
use crate::models::{valid_value, GraphRequest, Series, MAX_POINTS, VALUE_LIMIT};
use crate::num::{fmt_milli_0dp, fmt_milli_1dp};
use crate::scale::{v2p, value_to_pixel};
use crate::utils::svg::create_legend;

verus! {

/// Multi-line configuration.
pub struct MultiLineChart {
    pub show_points: bool,
    pub smooth_lines: bool,
    pub line_width: i64,
}

impl Default for MultiLineChart {
    /// Points shown, straight lines, two-pixel strokes.
    fn default() -> (r: Self)
        ensures
            r.show_points,
            !r.smooth_lines,
            r.line_width == 2000,
    {
        MultiLineChart { show_points: true, smooth_lines: false, line_width: 2000 }
    }
}

/// `l` is the length of the longest series.
pub open spec fn is_max_len(vals: Seq<Seq<int>>, l: int) -> bool {
    &&& forall|s: int| 0 <= s < vals.len() ==> (#[trigger] vals[s]).len() <= l
    &&& exists|s: int| 0 <= s < vals.len() && (#[trigger] vals[s]).len() == l
}

/// The X spacing between successive points: the plot width over the gap
/// count of the longest series (zero when it has a single point).
pub open spec fn ml_step(maxlen: int) -> int {
    if maxlen > 1 {
        680000int / (maxlen - 1)
    } else {
        0
    }
}

/// The polyline points of one series in the margin-60 frame; a flat value
/// range puts every point on the plot's vertical midline.
pub open spec fn ml_pts(vs: Seq<int>, vmin: int, vmax: int, step: int) -> Seq<(int, int)> {
    Seq::new(vs.len(), |i: int| (60000 + i * step, v2p(vs[i], vmin, vmax, 540000, 60000)))
}

/// A document that holds a rendered multi-line chart: somewhere in it
/// stand the series' paths, in series order; a series without points
/// contributes an empty placeholder instead of a path.
pub open spec fn ml_doc_ok(
    vals: Seq<Seq<int>>,
    vmin: int,
    vmax: int,
    step: int,
    smooth: bool,
    doc: Seq<Prim>,
    k: int,
) -> bool {
    &&& 0 <= k
    &&& k + vals.len() <= doc.len()
    &&& forall|s: int|
        0 <= s < vals.len() ==> if (#[trigger] vals[s]).len() > 0 {
            is_path_d(doc[k + s], path_pts(ml_pts(vals[s], vmin, vmax, step), smooth))
        } else {
            is_raw(doc[k + s], Seq::<char>::empty())
        }
}

impl MultiLineChart {
    /// Lays out a multi-line chart.  A request without any data point
    /// yields an empty drawing; otherwise the result renders a document
    /// holding one path per series over the shared value range (flat
    /// ranges draw on the plot's midline).
    pub fn generate(&self, request: &GraphRequest) -> (r: String)
        requires
            request.wf(),
        ensures
            exists|maxlen: int|
                {
                    &&& #[trigger] is_max_len(request.eff_values(), maxlen)
                    &&& (maxlen == 0 ==> r@ == Seq::<char>::empty())
                    &&& (maxlen > 0 ==> exists|vmin: int, vmax: int|
                        #![trigger is_vals_min(request.eff_values(), vmin), is_vals_max(request.eff_values(), vmax)]
                        {
                            &&& is_vals_min(request.eff_values(), vmin)
                            &&& is_vals_max(request.eff_values(), vmax)
                            &&& exists|doc: Seq<Prim>, k: int|
                                #[trigger] ml_doc_ok(
                                    request.eff_values(),
                                    vmin,
                                    vmax,
                                    ml_step(maxlen),
                                    self.smooth_lines,
                                    doc,
                                    k,
                                ) && r@ == render_doc(doc)
                        })
                },
    {
        let ghost vals = request.eff_values();
        let fb: Vec<Series> = if request.series.len() == 0 {
            data_as_series(&request.data, None)
        } else {
            Vec::new()
        };
        let series: &Vec<Series> = if request.series.len() > 0 {
            &request.series
        } else {
            &fb
        };
        proof {
            assert(series@.map_values(|q: Series| q.values()) =~= vals);
            assert(forall|q: int|
                0 <= q < series@.len() ==> (#[trigger] vals[q]) == series@[q].values());
            assert(forall|q: int| 0 <= q < series@.len() ==> (#[trigger] series@[q]).wf()) by {
                if request.series@.len() == 0 {
                    assert(series@[0].values() =~= request.data@.map_values(|v: i64| v as int));
                    assert(forall|j: int|
                        0 <= j < series@[0].values().len() ==> #[trigger] series@[0].values()[j]
                            == request.data@[j] as int);
                }
            }
        }
        // The longest series bounds the X extent.
        let mut maxlen: usize = 0;
        let mut q: usize = 0;
        while q < series.len()
            invariant
                vals.len() == series@.len(),
                forall|j: int| 0 <= j < series@.len() ==> (#[trigger] vals[j])
                    == series@[j].values(),
                forall|j: int| 0 <= j < series@.len() ==> (#[trigger] series@[j]).wf(),
                q <= series@.len(),
                forall|j: int| 0 <= j < q ==> (#[trigger] vals[j]).len() <= maxlen,
                maxlen == 0 || exists|j: int|
                    0 <= j < q && (#[trigger] vals[j]).len() == maxlen,
                maxlen <= MAX_POINTS,
            decreases series@.len() - q,
        {
            if series[q].data.len() > maxlen {
                maxlen = series[q].data.len();
                proof {
                    assert(vals[q as int].len() == maxlen);
                    assert(series@[q as int].wf());
                }
            }
            q += 1;
        }
        proof {
            if maxlen == 0 && vals.len() > 0 {
                assert forall|j: int| 0 <= j < vals.len() implies (#[trigger] vals[j]).len()
                    == 0 by {}
                assert(vals[0].len() == 0);
            }
            if vals.len() == 0 {
                assert(false);
            }
            assert(is_max_len(vals, maxlen as int));
        }
        if maxlen == 0 {
            return String::new();
        }
        let vmin = crate::charts::get_min_value(series);
        let vmax = crate::charts::get_max_value(series);
        proof {
            let w = choose|j: int| 0 <= j < vals.len() && (#[trigger] vals[j]).len() == maxlen;
            assert(series@[w].values().len() == maxlen);
            assert(series@[w].values()[0] <= vmax);
            assert(vmin <= series@[w].values()[0]);
            assert(series@[w].wf());
            assert forall|a: int, i: int|
                0 <= a < vals.len() && 0 <= i < vals[a].len() implies vmin as int
                <= #[trigger] vals[a][i] <= vmax as int by {
                assert(vals[a] == series@[a].values());
            }
            assert(is_vals_min(vals, vmin as int)) by {
                let (ws, wi) = choose|ws: int, wi: int|
                    0 <= ws < series@.len() && 0 <= wi < series@[ws].values().len()
                        && #[trigger] series@[ws].values()[wi] == vmin;
                assert(vals[ws] == series@[ws].values());
            }
            assert(is_vals_max(vals, vmax as int)) by {
                let (ws, wi) = choose|ws: int, wi: int|
                    0 <= ws < series@.len() && 0 <= wi < series@[ws].values().len()
                        && #[trigger] series@[ws].values()[wi] == vmax;
                assert(vals[ws] == series@[ws].values());
            }
            assert(valid_value(vmin as int) && valid_value(vmax as int)) by {
                let (ws, wi) = choose|ws: int, wi: int|
                    0 <= ws < series@.len() && 0 <= wi < series@[ws].values().len()
                        && #[trigger] series@[ws].values()[wi] == vmin;
                assert(series@[ws].wf());
                let (xs, xi) = choose|xs: int, xi: int|
                    0 <= xs < series@.len() && 0 <= xi < series@[xs].values().len()
                        && #[trigger] series@[xs].values()[xi] == vmax;
                assert(series@[xs].wf());
            }
        }
        let step: i64 = if maxlen > 1 {
            680000 / ((maxlen as i64) - 1)
        } else {
            0
        };
        let lw = if self.line_width < 0 {
            0
        } else if self.line_width > 100_000 {
            100_000
        } else {
            self.line_width
        };
        let palette = request_palette(request);
        let mut doc: Vec<Prim> = Vec::new();
        doc.push(
            Prim::Raw {
                markup: String::from_str(
                    "<svg width=\"800\" height=\"600\" xmlns=\"http://www.w3.org/2000/svg\">\n  <defs>\n    <style>\n      .line-point { stroke: #fff; stroke-width: 1; }\n      .axis { stroke: #333; stroke-width: 2; }\n      .axis-text { font-family: Arial, sans-serif; font-size: 12px; fill: #333; }\n      .title { font-family: Arial, sans-serif; font-size: 16px; font-weight: bold; fill: #333; text-anchor: middle; }\n      .grid { stroke: #ddd; stroke-width: 1; stroke-dasharray: 2,2; }\n      .legend { font-family: Arial, sans-serif; font-size: 12px; fill: #333; }\n    </style>\n  </defs>\n  <rect width=\"100%\" height=\"100%\" fill=\"white\"/>",
                ),
            },
        );
        if let Some(title) = &request.title {
            doc.push(
                Prim::Text {
                    x: 400000,
                    y: 30000,
                    attrs: String::from_str("class=\"title\""),
                    content: title.clone(),
                },
            );
        }
        // Grid lines in both directions.
        let mut g: i64 = 0;
        while g <= 5
            invariant
                0 <= g <= 6,
                doc_wf(doc@),
            decreases 6 - g,
        {
            let y = 60000 + 96000 * g;
            doc.push(
                Prim::Line {
                    x1: 60000,
                    y1: y,
                    x2: 740000,
                    y2: y,
                    attrs: String::from_str("class=\"grid\""),
                },
            );
            let x = 60000 + 136000 * g;
            doc.push(
                Prim::Line {
                    x1: x,
                    y1: 60000,
                    x2: x,
                    y2: 540000,
                    attrs: String::from_str("class=\"grid\""),
                },
            );
            g += 1;
        }
        // One path per series.
        let ghost k = doc@.len();
        let nseries = series.len();
        let mut s: usize = 0;
        while s < nseries
            invariant
                nseries == series@.len(),
                vals.len() == series@.len(),
                forall|j: int| 0 <= j < series@.len() ==> (#[trigger] vals[j])
                    == series@[j].values(),
                forall|j: int| 0 <= j < series@.len() ==> (#[trigger] series@[j]).wf(),
                forall|a: int, i: int|
                    0 <= a < vals.len() && 0 <= i < vals[a].len() ==> vmin as int
                        <= #[trigger] vals[a][i] <= vmax as int,
                -VALUE_LIMIT <= vmin <= vmax <= VALUE_LIMIT,
                0 <= step <= 680000,
                0 <= lw <= 100_000,
                palette@.len() > 0,
                s <= nseries,
                doc@.len() == k + s,
                doc_wf(doc@),
                forall|j: int|
                    0 <= j < s ==> if (#[trigger] vals[j]).len() > 0 {
                        is_path_d(
                            doc@[k + j],
                            path_pts(
                                ml_pts(vals[j], vmin as int, vmax as int, step as int),
                                self.smooth_lines,
                            ),
                        )
                    } else {
                        is_raw(doc@[k + j], Seq::<char>::empty())
                    },
            decreases nseries - s,
        {
            let ser = &series[s];
            let np = ser.data.len();
            let ghost d0 = doc@;
            if np == 0 {
                doc.push(Prim::Raw { markup: String::new() });
            } else {
                let mut pts: Vec<(i64, i64)> = Vec::new();
                let mut j: usize = 0;
                while j < np
                    invariant
                        s < series@.len(),
                        *ser == series@[s as int],
                        vals.len() == series@.len(),
                        vals[s as int] == series@[s as int].values(),
                        series@[s as int].wf(),
                        np == ser.data@.len(),
                        forall|a: int, i: int|
                            0 <= a < vals.len() && 0 <= i < vals[a].len() ==> vmin as int
                                <= #[trigger] vals[a][i] <= vmax as int,
                        -VALUE_LIMIT <= vmin <= vmax <= VALUE_LIMIT,
                        0 <= step <= 680000,
                        j <= np,
                        pts@.len() == j,
                        forall|q2: int|
                            0 <= q2 < j ==> ((#[trigger] pts@[q2]).0 as int, pts@[q2].1 as int)
                                == ml_pts(vals[s as int], vmin as int, vmax as int, step as int)[q2],
                        forall|q2: int|
                            0 <= q2 < j ==> 0 <= (#[trigger] pts@[q2]).0
                                <= 1_000_000_000_000_000i64 && 0 <= pts@[q2].1
                                <= 1_000_000_000_000_000i64,
                    decreases np - j,
                {
                    let v = ser.data[j].value;
                    proof {
                        assert(vals[s as int][j as int] == v as int);
                        assert(0 <= (j as int) * (step as int) <= 100_000int * 680000)
                            by (nonlinear_arith)
                            requires
                                0 <= j <= 100_000,
                                0 <= step <= 680000,
                        ;
                    }
                    let x = 60000 + (j as i64) * step;
                    let y = value_to_pixel(v, vmin, vmax, 540000, 60000);
                    pts.push((x, y));
                    j += 1;
                }
                let d = path_from_points(&pts, self.smooth_lines);
                proof {
                    assert(pts@.map_values(|p: (i64, i64)| (p.0 as int, p.1 as int)) =~= ml_pts(
                        vals[s as int],
                        vmin as int,
                        vmax as int,
                        step as int,
                    ));
                }
                let color: &str = match &ser.color {
                    Some(c) => c.as_str(),
                    None => palette[s % palette.len()].as_str(),
                };
                let mut attrs = stroke_attr(color);
                attrs.append(" fill=\"none\" stroke-width=\"");
                let w = fmt_milli_1dp(lw);
                attrs.append(w.as_str());
                attrs.append("\"");
                doc.push(Prim::Path { d, attrs });
            }
            proof {
                assert forall|j2: int| 0 <= j2 < s + 1 implies (if (#[trigger] vals[j2]).len()
                    > 0 {
                    is_path_d(
                        doc@[k + j2],
                        path_pts(
                            ml_pts(vals[j2], vmin as int, vmax as int, step as int),
                            self.smooth_lines,
                        ),
                    )
                } else {
                    is_raw(doc@[k + j2], Seq::<char>::empty())
                }) by {
                    if j2 < s {
                        assert(doc@[k + j2] == d0[k + j2]);
                    }
                }
            }
            s += 1;
        }
        // Point markers.
        let ghost dm = doc@;
        if self.show_points {
            let mut s2: usize = 0;
            while s2 < nseries
                invariant
                    nseries == series@.len(),
                    vals.len() == series@.len(),
                    forall|j: int| 0 <= j < series@.len() ==> (#[trigger] vals[j])
                        == series@[j].values(),
                    forall|j: int| 0 <= j < series@.len() ==> (#[trigger] series@[j]).wf(),
                    forall|a: int, i: int|
                        0 <= a < vals.len() && 0 <= i < vals[a].len() ==> vmin as int
                            <= #[trigger] vals[a][i] <= vmax as int,
                    -VALUE_LIMIT <= vmin <= vmax <= VALUE_LIMIT,
                    0 <= step <= 680000,
                    palette@.len() > 0,
                    s2 <= nseries,
                    doc_wf(doc@),
                    doc@.len() >= dm.len(),
                    forall|j: int| 0 <= j < dm.len() ==> #[trigger] doc@[j] == dm[j],
                decreases nseries - s2,
            {
                let ser = &series[s2];
                let color: &str = match &ser.color {
                    Some(c) => c.as_str(),
                    None => palette[s2 % palette.len()].as_str(),
                };
                let np = ser.data.len();
                let mut j: usize = 0;
                while j < np
                    invariant
                        s2 < series@.len(),
                        *ser == series@[s2 as int],
                        vals.len() == series@.len(),
                        vals[s2 as int] == series@[s2 as int].values(),
                        series@[s2 as int].wf(),
                        np == ser.data@.len(),
                        forall|a: int, i: int|
                            0 <= a < vals.len() && 0 <= i < vals[a].len() ==> vmin as int
                                <= #[trigger] vals[a][i] <= vmax as int,
                        -VALUE_LIMIT <= vmin <= vmax <= VALUE_LIMIT,
                        0 <= step <= 680000,
                        j <= np,
                        doc_wf(doc@),
                        doc@.len() >= dm.len(),
                        forall|j2: int| 0 <= j2 < dm.len() ==> #[trigger] doc@[j2] == dm[j2],
                    decreases np - j,
                {
                    let v = ser.data[j].value;
                    proof {
                        assert(vals[s2 as int][j as int] == v as int);
                        assert(0 <= (j as int) * (step as int) <= 100_000int * 680000)
                            by (nonlinear_arith)
                            requires
                                0 <= j <= 100_000,
                                0 <= step <= 680000,
                        ;
                    }
                    let x = 60000 + (j as i64) * step;
                    let y = value_to_pixel(v, vmin, vmax, 540000, 60000);
                    let mut attrs = crate::canvas::fill_attr(color);
                    attrs.append(" class=\"line-point\"");
                    doc.push(Prim::Circle { cx: x, cy: y, r: 4000, attrs });
                    j += 1;
                }
                s2 += 1;
            }
        }
        // Axes, tick labels, axis labels and legend.
        doc.push(
            Prim::Line {
                x1: 60000,
                y1: 540000,
                x2: 740000,
                y2: 540000,
                attrs: String::from_str("class=\"axis\""),
            },
        );
        doc.push(
            Prim::Line {
                x1: 60000,
                y1: 60000,
                x2: 60000,
                y2: 540000,
                attrs: String::from_str("class=\"axis\""),
            },
        );
        let mut t: i64 = 0;
        while t <= 5
            invariant
                0 <= t <= 6,
                -VALUE_LIMIT <= vmin <= vmax <= VALUE_LIMIT,
                1 <= maxlen <= MAX_POINTS,
                doc_wf(doc@),
                doc@.len() >= dm.len(),
                forall|j: int| 0 <= j < dm.len() ==> #[trigger] doc@[j] == dm[j],
            decreases 6 - t,
        {
            let y = 540000 - 96000 * t;
            proof {
                assert(0 <= ((vmax - vmin) as int) * (t as int) <= 2_000_000_000_000int * 5)
                    by (nonlinear_arith)
                    requires
                        0 <= (vmax - vmin) as int <= 2_000_000_000_000int,
                        0 <= t <= 5,
                ;
                assert(0 <= ((maxlen - 1) as int) * (t as int) * 1000 <= 100_000int * 5 * 1000)
                    by (nonlinear_arith)
                    requires
                        0 <= (maxlen - 1) as int <= 100_000,
                        0 <= t <= 5,
                ;
            }
            let yv = vmin + ((((vmax - vmin) as u64) * (t as u64)) / 5u64) as i64;
            doc.push(
                Prim::Text {
                    x: 50000,
                    y: y + 4000,
                    attrs: String::from_str("class=\"axis-text\" text-anchor=\"end\""),
                    content: fmt_milli_1dp(yv),
                },
            );
            let x = 60000 + 136000 * t;
            let xv = ((((maxlen as u64) - 1) * (t as u64)) / 5) as i64 * 1000;
            doc.push(
                Prim::Text {
                    x,
                    y: 560000,
                    attrs: String::from_str("class=\"axis-text\" text-anchor=\"middle\""),
                    content: fmt_milli_0dp(xv),
                },
            );
            t += 1;
        }
        if let Some(xl) = &request.x_label {
            doc.push(
                Prim::Text {
                    x: 400000,
                    y: 590000,
                    attrs: String::from_str("class=\"axis-text\" text-anchor=\"middle\""),
                    content: xl.clone(),
                },
            );
        }
        if let Some(yl) = &request.y_label {
            doc.push(
                Prim::Text {
                    x: 20000,
                    y: 300000,
                    attrs: String::from_str(
                        "class=\"axis-text\" text-anchor=\"middle\" transform=\"rotate(-90, 20, 300)\"",
                    ),
                    content: yl.clone(),
                },
            );
        }
        let mut legend = create_legend(series, 650000, 60000, &palette);
        doc.append(&mut legend);
        proof {
            assert(forall|j: int| 0 <= j < dm.len() ==> #[trigger] doc@[j] == dm[j]);
        }
        doc.push(Prim::Raw { markup: String::from_str("</svg>") });
        let out = render(&doc);
        proof {
            assert forall|j2: int| 0 <= j2 < vals.len() implies (if (#[trigger] vals[j2]).len()
                > 0 {
                is_path_d(
                    doc@[k + j2],
                    path_pts(
                        ml_pts(vals[j2], vmin as int, vmax as int, step as int),
                        self.smooth_lines,
                    ),
                )
            } else {
                is_raw(doc@[k + j2], Seq::<char>::empty())
            }) by {
                assert(doc@[k + j2] == dm[k + j2]);
            }
            assert(step as int == ml_step(maxlen as int));
            assert(ml_doc_ok(
                vals,
                vmin as int,
                vmax as int,
                ml_step(maxlen as int),
                self.smooth_lines,
                doc@,
                k as int,
            ));
        }
        out
    }
}

impl Chart for MultiLineChart {
    fn generate(&self, request: &GraphRequest) -> (svg: String) {
        MultiLineChart::generate(self, request)
    }
}

} // verus!
