//! Radar layout.
//!
//! Each data point maps to one spoke; spoke angles divide the full turn
//! evenly starting at the top of the circle, and a point's radius is its
//! share of the largest value.  Each series is drawn as a closed polygon
//! through its spoke points.  A radar needs at least three axes; the
//! shortest series bounds the axis count.

use vstd::prelude::*;
use crate::canvas::{doc_wf, is_path_d, path_from_points, path_pts, render, render_doc, Prim};
use crate::charts::stacked_bar::clamp0;
use crate::charts::{aligned_categories, data_as_series, is_vals_max, Chart};
use crate::models::{GraphRequest, Series, MAX_POINTS, VALUE_LIMIT};
use crate::trig::{cos_mdeg, cos_spec, scale_by_micro, scale_micro, sin_mdeg, sin_spec};

verus! {

/// Radar layout.
pub struct RadarChart {}

/// The spoke angle of axis `i` of `n`, in absolute millidegrees: spokes
/// start at the top of the circle and divide the turn evenly.
pub open spec fn spoke_angle(i: int, n: int) -> int {
    (270000 + i * (360000int / n)) % 360000
}

/// The spoke radius of a value: its share of the maximum, clamped below
/// at zero, of the 200-pixel outer radius.
pub open spec fn spoke_r(v: int, vmax: int) -> int {
    if vmax > 0 {
        200000 * clamp0(v) / vmax
    } else {
        0
    }
}

/// The polygon points of one series around the center at (400, 300).
pub open spec fn radar_pts(vs: Seq<int>, vmax: int, n: int) -> Seq<(int, int)> {
    Seq::new(
        n as nat,
        |i: int|
            (
                400000 + scale_micro(spoke_r(vs[i], vmax), cos_spec(spoke_angle(i, n))),
                300000 + scale_micro(spoke_r(vs[i], vmax), sin_spec(spoke_angle(i, n))),
            ),
    )
}

/// The closed polygon path of one series.
pub open spec fn radar_path(vs: Seq<int>, vmax: int, n: int) -> Seq<char> {
    path_pts(radar_pts(vs, vmax, n), false) + " Z"@
}

/// A document that holds a rendered radar chart: somewhere in it stand
/// the series' closed polygons, in series order.
pub open spec fn radar_doc_ok(
    vals: Seq<Seq<int>>,
    vmax: int,
    n: int,
    doc: Seq<Prim>,
    k: int,
) -> bool {
    &&& 0 <= k
    &&& k + vals.len() <= doc.len()
    &&& n >= 3
    &&& vmax > 0
    &&& forall|s: int|
        0 <= s < vals.len() ==> is_path_d(#[trigger] doc[k + s], radar_path(vals[s], vmax, n))
}

/// One spoke point.
fn radar_point(v: i64, vmax: i64, i: usize, n: usize) -> (r: (i64, i64))
    requires
        -VALUE_LIMIT <= v <= VALUE_LIMIT,
        v <= vmax,
        0 < vmax <= VALUE_LIMIT,
        1 <= n <= MAX_POINTS,
        i < n,
    ensures
        r.0 as int == 400000 + scale_micro(
            spoke_r(v as int, vmax as int),
            cos_spec(spoke_angle(i as int, n as int)),
        ),
        r.1 as int == 300000 + scale_micro(
            spoke_r(v as int, vmax as int),
            sin_spec(spoke_angle(i as int, n as int)),
        ),
        0 <= r.0 <= 1_000_000,
        0 <= r.1 <= 1_000_000,
{
    let cl = if v > 0 {
        v
    } else {
        0
    };
    proof {
        assert(0 <= 200000 * (cl as int) <= 200000 * 1_000_000_000_000int) by (nonlinear_arith)
            requires
                0 <= cl <= 1_000_000_000_000i64,
        ;
        assert(200000 * (cl as int) <= 200000 * (vmax as int)) by (nonlinear_arith)
            requires
                cl <= vmax,
                0 <= cl <= vmax,
        ;
        vstd::arithmetic::div_mod::lemma_div_pos_is_pos(200000 * (cl as int), vmax as int);
        vstd::arithmetic::div_mod::lemma_div_is_ordered(
            200000 * (cl as int),
            200000 * (vmax as int),
            vmax as int,
        );
        assert(200000 * (vmax as int) == (vmax as int) * 200000) by (nonlinear_arith);
        vstd::arithmetic::div_mod::lemma_div_multiples_vanish(200000, vmax as int);
    }
    let rr = ((200000u64 * (cl as u64)) / (vmax as u64)) as i64;
    proof {
        assert(0 <= (i as int) * (360000int / n as int) <= 100_000int * 360000)
            by (nonlinear_arith)
            requires
                0 <= i <= 100_000,
                0 <= 360000int / n as int <= 360000,
        ;
        vstd::arithmetic::div_mod::lemma_mod_pos_bound(
            270000 + (i as int) * (360000int / n as int),
            360000,
        );
    }
    let ang = (270000 + (i as i64) * (360000 / (n as i64))) % 360000;
    let x = 400000 + scale_by_micro(rr, cos_mdeg(ang));
    let y = 300000 + scale_by_micro(rr, sin_mdeg(ang));
    (x, y)
}

impl RadarChart {
    /// Lays out a radar chart.  A request with fewer than three aligned
    /// axes, or whose largest value is not positive, yields an empty
    /// drawing; otherwise the result renders a document holding one
    /// closed polygon per series.
    pub fn generate(&self, request: &GraphRequest) -> (r: String)
        requires
            request.wf(),
        ensures
            exists|n: int|
                {
                    &&& #[trigger] crate::charts::bar::is_bar_cats(request.eff_values(), n)
                    &&& (n < 3 ==> r@ == Seq::<char>::empty())
                    &&& (n >= 3 ==> exists|vmax: int|
                        {
                            &&& #[trigger] is_vals_max(request.eff_values(), vmax)
                            &&& (vmax <= 0 ==> r@ == Seq::<char>::empty())
                            &&& (vmax > 0 ==> exists|doc: Seq<Prim>, k: int|
                                #[trigger] radar_doc_ok(request.eff_values(), vmax, n, doc, k)
                                    && r@ == render_doc(doc))
                        })
                },
    {
        let ghost vals = request.eff_values();
        let fb: Vec<Series> = if request.series.len() == 0 {
            data_as_series(&request.data, None)
        } else {
            Vec::new()
        };
        let series: &Vec<Series> = if request.series.len() > 0 {
            &request.series
        } else {
            &fb
        };
        proof {
            assert(series@.map_values(|q: Series| q.values()) =~= vals);
            assert(forall|q: int|
                0 <= q < series@.len() ==> (#[trigger] vals[q]) == series@[q].values());
            assert(forall|q: int| 0 <= q < series@.len() ==> (#[trigger] series@[q]).wf()) by {
                if request.series@.len() == 0 {
                    assert(series@[0].values() =~= request.data@.map_values(|v: i64| v as int));
                    assert(forall|j: int|
                        0 <= j < series@[0].values().len() ==> #[trigger] series@[0].values()[j]
                            == request.data@[j] as int);
                }
            }
        }
        let n = aligned_categories(series);
        proof {
            assert forall|q: int| 0 <= q < vals.len() implies n as int <= (
            #[trigger] vals[q]).len() by {
                assert(vals[q] == series@[q].values());
            }
            let w = choose|q: int|
                0 <= q < series@.len() && n == (#[trigger] series@[q].values()).len();
            assert(vals[w] == series@[w].values());
            assert(crate::charts::bar::is_bar_cats(vals, n as int));
        }
        if n < 3 {
            return String::new();
        }
        let vmax = crate::charts::get_max_value(series);
        proof {
            assert(vmax > i64::MIN) by {
                assert(series@[0].values().len() >= n);
                assert(series@[0].values()[0] <= vmax);
                assert(series@[0].wf());
            }
            assert forall|q: int, i: int|
                0 <= q < vals.len() && 0 <= i < vals[q].len() implies #[trigger] vals[q][i]
                <= vmax as int by {
                assert(vals[q] == series@[q].values());
            }
            let (ws, wi) = choose|ws: int, wi: int|
                0 <= ws < series@.len() && 0 <= wi < series@[ws].values().len()
                    && #[trigger] series@[ws].values()[wi] == vmax;
            assert(vals[ws] == series@[ws].values());
            assert(is_vals_max(vals, vmax as int));
        }
        if vmax <= 0 {
            return String::new();
        }
        let mut doc: Vec<Prim> = Vec::new();
        doc.push(
            Prim::Raw {
                markup: String::from_str(
                    "<?xml version=\"1.0\" encoding=\"UTF-8\" standalone=\"no\"?>\n<svg width=\"800\" height=\"600\" xmlns=\"http://www.w3.org/2000/svg\">\n<rect width=\"800\" height=\"600\" fill=\"white\"/>\n<g>",
                ),
            },
        );
        if let Some(title) = &request.title {
            doc.push(
                Prim::Text {
                    x: 400000,
                    y: 30000,
                    attrs: String::from_str(
                        "text-anchor=\"middle\" font-family=\"M PLUS 1p\" font-size=\"20\"",
                    ),
                    content: title.clone(),
                },
            );
        }
        // Background reference rings at even fractions of the radius, and
        // the spokes.
        let mut ring: i64 = 1;
        while ring <= 5
            invariant
                1 <= ring <= 6,
                3 <= n <= MAX_POINTS,
                doc_wf(doc@),
            decreases 6 - ring,
        {
            let rr = 40000 * ring;
            let mut pts: Vec<(i64, i64)> = Vec::new();
            let mut j: usize = 0;
            while j < n
                invariant
                    3 <= n <= MAX_POINTS,
                    0 <= rr <= 200000,
                    j <= n,
                    pts@.len() == j,
                    forall|q2: int|
                        0 <= q2 < j ==> 0 <= (#[trigger] pts@[q2]).0 <= 1_000_000_000_000_000i64
                            && 0 <= pts@[q2].1 <= 1_000_000_000_000_000i64,
                decreases n - j,
            {
                proof {
                    assert(0 <= (j as int) * (360000int / n as int) <= 100_000int * 360000)
                        by (nonlinear_arith)
                        requires
                            0 <= j <= 100_000,
                            0 <= 360000int / n as int <= 360000,
                    ;
                    vstd::arithmetic::div_mod::lemma_mod_pos_bound(
                        270000 + (j as int) * (360000int / n as int),
                        360000,
                    );
                }
                let ang = (270000 + (j as i64) * (360000 / (n as i64))) % 360000;
                let x = 400000 + scale_by_micro(rr, cos_mdeg(ang));
                let y = 300000 + scale_by_micro(rr, sin_mdeg(ang));
                pts.push((x, y));
                j += 1;
            }
            let mut d = path_from_points(&pts, false);
            d.append(" Z");
            doc.push(
                Prim::Path {
                    d,
                    attrs: String::from_str(
                        "style=\"stroke:#CCCCCC;stroke-width:1;fill:none\"",
                    ),
                },
            );
            ring += 1;
        }
        // Spokes and axis labels.
        let mut sp: usize = 0;
        while sp < n
            invariant
                request.wf(),
                3 <= n <= MAX_POINTS,
                request.series@.len() > 0 ==> n <= request.series@[0].values().len(),
                doc_wf(doc@),
            decreases n - sp,
        {
            proof {
                assert(0 <= (sp as int) * (360000int / n as int) <= 100_000int * 360000)
                    by (nonlinear_arith)
                    requires
                        0 <= sp <= 100_000,
                        0 <= 360000int / n as int <= 360000,
                ;
                vstd::arithmetic::div_mod::lemma_mod_pos_bound(
                    270000 + (sp as int) * (360000int / n as int),
                    360000,
                );
            }
            let ang = (270000 + (sp as i64) * (360000 / (n as i64))) % 360000;
            let ex = 400000 + scale_by_micro(200000, cos_mdeg(ang));
            let ey = 300000 + scale_by_micro(200000, sin_mdeg(ang));
            doc.push(
                Prim::Line {
                    x1: 400000,
                    y1: 300000,
                    x2: ex,
                    y2: ey,
                    attrs: String::from_str("style=\"stroke:#CCCCCC;stroke-width:1\""),
                },
            );
            let lx = 400000 + scale_by_micro(220000, cos_mdeg(ang));
            let ly = 300000 + scale_by_micro(220000, sin_mdeg(ang));
            let label: String = if request.series.len() > 0 {
                proof {
                    assert(request.series@[0].values().len()
                        == request.series@[0].data@.len());
                }
                match &request.series[0].data[sp].label {
                    Some(l) => l.clone(),
                    None => {
                        let mut t = String::from_str("Axis ");
                        let num = crate::num::u64_str((sp as u64) + 1);
                        t.append(num.as_str());
                        t
                    },
                }
            } else {
                let mut t = String::from_str("Axis ");
                let num = crate::num::u64_str((sp as u64) + 1);
                t.append(num.as_str());
                t
            };
            doc.push(
                Prim::Text {
                    x: lx,
                    y: ly,
                    attrs: String::from_str(
                        "text-anchor=\"middle\" font-family=\"M PLUS 1p\" font-size=\"12\"",
                    ),
                    content: label,
                },
            );
            sp += 1;
        }
        // One polygon per series, over its first `n` values.
        let ghost k = doc@.len();
        let nseries = series.len();
        let mut s: usize = 0;
        while s < nseries
            invariant
                nseries == series@.len(),
                vals.len() == series@.len(),
                forall|q: int| 0 <= q < series@.len() ==> (#[trigger] vals[q])
                    == series@[q].values(),
                forall|q: int| 0 <= q < series@.len() ==> (#[trigger] series@[q]).wf(),
                forall|q: int|
                    0 <= q < series@.len() ==> n <= (#[trigger] series@[q]).values().len(),
                forall|a: int, i2: int|
                    0 <= a < vals.len() && 0 <= i2 < vals[a].len() ==> #[trigger] vals[a][i2]
                        <= vmax as int,
                3 <= n <= MAX_POINTS,
                0 < vmax <= VALUE_LIMIT,
                s <= nseries,
                doc@.len() == k + s,
                doc_wf(doc@),
                forall|q: int|
                    0 <= q < s ==> is_path_d(
                        #[trigger] doc@[k + q],
                        radar_path(vals[q], vmax as int, n as int),
                    ),
            decreases nseries - s,
        {
            let ser = &series[s];
            let mut pts: Vec<(i64, i64)> = Vec::new();
            let mut j: usize = 0;
            while j < n
                invariant
                    s < series@.len(),
                    *ser == series@[s as int],
                    vals.len() == series@.len(),
                    vals[s as int] == series@[s as int].values(),
                    series@[s as int].wf(),
                    n <= series@[s as int].values().len(),
                    forall|a: int, i2: int|
                        0 <= a < vals.len() && 0 <= i2 < vals[a].len() ==> #[trigger] vals[a][i2]
                            <= vmax as int,
                    3 <= n <= MAX_POINTS,
                    0 < vmax <= VALUE_LIMIT,
                    j <= n,
                    pts@.len() == j,
                    forall|q2: int|
                        0 <= q2 < j ==> ((#[trigger] pts@[q2]).0 as int, pts@[q2].1 as int)
                            == radar_pts(vals[s as int], vmax as int, n as int)[q2],
                    forall|q2: int|
                        0 <= q2 < j ==> 0 <= (#[trigger] pts@[q2]).0 <= 1_000_000_000_000_000i64
                            && 0 <= pts@[q2].1 <= 1_000_000_000_000_000i64,
                decreases n - j,
            {
                let v = ser.data[j].value;
                proof {
                    assert(vals[s as int][j as int] == v as int);
                }
                let p = radar_point(v, vmax, j, n);
                pts.push(p);
                j += 1;
            }
            let mut d = path_from_points(&pts, false);
            proof {
                assert(pts@.map_values(|p: (i64, i64)| (p.0 as int, p.1 as int)) =~= radar_pts(
                    vals[s as int],
                    vmax as int,
                    n as int,
                ));
                reveal_strlit(" Z");
            }
            d.append(" Z");
            let color: &str = match &ser.color {
                Some(c) => c.as_str(),
                None => match &request.colors {
                    Some(cs) if cs.len() > 0 => cs[s % cs.len()].as_str(),
                    _ => match s % 7 {
                        0 => "#0000FF",
                        1 => "#FFB3B3",
                        2 => "#B3E0FF",
                        3 => "#FFE6B3",
                        4 => "#B3FFB3",
                        5 => "#E6B3FF",
                        _ => "#FFD9B3",
                    },
                },
            };
            let mut attrs = String::from_str("style=\"stroke:");
            attrs.append(color);
            attrs.append(";stroke-width:2;fill:");
            attrs.append(color);
            attrs.append(";fill-opacity:0.2\"");
            let ghost d0 = doc@;
            doc.push(Prim::Path { d, attrs });
            proof {
                assert forall|q: int| 0 <= q < s + 1 implies is_path_d(
                    #[trigger] doc@[k + q],
                    radar_path(vals[q], vmax as int, n as int),
                ) by {
                    if q < s {
                        assert(doc@[k + q] == d0[k + q]);
                    }
                }
            }
            s += 1;
        }
        let ghost dm = doc@;
        // Point markers with their value labels.
        let mut s3: usize = 0;
        while s3 < nseries
            invariant
                nseries == series@.len(),
                vals.len() == series@.len(),
                forall|q: int| 0 <= q < series@.len() ==> (#[trigger] vals[q])
                    == series@[q].values(),
                forall|q: int| 0 <= q < series@.len() ==> (#[trigger] series@[q]).wf(),
                forall|q: int|
                    0 <= q < series@.len() ==> n <= (#[trigger] series@[q]).values().len(),
                forall|a: int, i2: int|
                    0 <= a < vals.len() && 0 <= i2 < vals[a].len() ==> #[trigger] vals[a][i2]
                        <= vmax as int,
                3 <= n <= MAX_POINTS,
                0 < vmax <= VALUE_LIMIT,
                s3 <= nseries,
                doc_wf(doc@),
                doc@.len() >= dm.len(),
                forall|j: int| 0 <= j < dm.len() ==> #[trigger] doc@[j] == dm[j],
            decreases nseries - s3,
        {
            let ser = &series[s3];
            let mut j: usize = 0;
            while j < n
                invariant
                    s3 < series@.len(),
                    *ser == series@[s3 as int],
                    vals.len() == series@.len(),
                    vals[s3 as int] == series@[s3 as int].values(),
                    series@[s3 as int].wf(),
                    n <= series@[s3 as int].values().len(),
                    forall|a: int, i2: int|
                        0 <= a < vals.len() && 0 <= i2 < vals[a].len() ==> #[trigger] vals[a][i2]
                            <= vmax as int,
                    3 <= n <= MAX_POINTS,
                    0 < vmax <= VALUE_LIMIT,
                    j <= n,
                    doc_wf(doc@),
                    doc@.len() >= dm.len(),
                    forall|j2: int| 0 <= j2 < dm.len() ==> #[trigger] doc@[j2] == dm[j2],
                decreases n - j,
            {
                let v = ser.data[j].value;
                proof {
                    assert(vals[s3 as int][j as int] == v as int);
                }
                let pnt = radar_point(v, vmax, j, n);
                doc.push(
                    Prim::Circle {
                        cx: pnt.0,
                        cy: pnt.1,
                        r: 4000,
                        attrs: String::from_str("fill=\"#333333\""),
                    },
                );
                doc.push(crate::utils::svg::generate_value_text(pnt.0, pnt.1, v));
                j += 1;
            }
            s3 += 1;
        }
        if request.series.len() > 0 {
            let palette = crate::charts::request_palette(request);
            let mut legend = crate::utils::svg::create_legend(&request.series, 660000, 50000, &palette);
            doc.append(&mut legend);
        }
        doc.push(Prim::Raw { markup: String::from_str("</g></svg>") });
        let out = render(&doc);
        proof {
            assert forall|q: int| 0 <= q < vals.len() implies is_path_d(
                #[trigger] doc@[k + q],
                radar_path(vals[q], vmax as int, n as int),
            ) by {
                assert(doc@[k + q] == dm[k + q]);
            }
            assert(radar_doc_ok(vals, vmax as int, n as int, doc@, k as int));
        }
        out
    }
}

impl Chart for RadarChart {
    fn generate(&self, request: &GraphRequest) -> (svg: String) {
        RadarChart::generate(self, request)
    }
}

} // verus!
