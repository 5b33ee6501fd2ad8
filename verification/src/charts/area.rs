//! Area chart layout.
//!
//! Identical to a line chart but each series' path closes back down to
//! the baseline, forming a filled region drawn with fixed opacity in the
//! series color.

use vstd::prelude::*;
use crate::canvas::{doc_wf, fill_attr_spec, render, render_doc, stroke_attr_spec, Prim};
use crate::charts::bar::bar_h;
use crate::charts::{data_as_series, is_vals_max, req_palette, request_palette, Chart};
use crate::models::{GraphRequest, Series, MAX_POINTS, VALUE_LIMIT};
use crate::num::{milli_1dp, fmt_milli_1dp};
use crate::utils::svg::create_svg_header;

verus! {

/// Area chart layout.
pub struct AreaChart {}

/// The X spacing between successive points.
pub open spec fn area_seg(n: int) -> int {
    if n > 1 {
        640000int / (n - 1)
    } else {
        0
    }
}

/// The " L x y" segments through the first `i` points of a series.
pub open spec fn area_lsegs(vs: Seq<int>, amax: int, seg: int, i: int) -> Seq<char>
    decreases i,
{
    if i <= 0 {
        Seq::<char>::empty()
    } else {
        area_lsegs(vs, amax, seg, i - 1) + " L "@ + milli_1dp((i - 1) * seg) + " "@ + milli_1dp(
            450000 - bar_h(vs[i - 1], amax),
        )
    }
}

/// The closed path of one filled area: from the baseline through every
/// point and back down to the baseline.
pub open spec fn area_path(vs: Seq<int>, amax: int, seg: int) -> Seq<char> {
    "M 0 450"@ + area_lsegs(vs, amax, seg, vs.len() as int) + " L "@ + milli_1dp(
        (vs.len() - 1) * seg,
    ) + " 450 Z"@
}

/// The draw color of an area series: the request's palette entry at its
/// index.
pub open spec fn area_fill(request: &GraphRequest, s: int) -> Seq<char> {
    req_palette(request)[s % req_palette(request).len() as int]
}

/// The attributes of one area path: filled at fixed opacity and stroked,
/// both in the series color.
pub open spec fn area_attrs(request: &GraphRequest, s: int) -> Seq<char> {
    fill_attr_spec(area_fill(request, s)) + " fill-opacity=\"0.3\" "@ + stroke_attr_spec(
        area_fill(request, s),
    ) + " stroke-width=\"2\""@
}

/// A document that holds a rendered area chart: somewhere in it stand the
/// series' closed area paths, in series order, filled and stroked in the
/// series' palette color.
pub open spec fn area_doc_ok(
    request: &GraphRequest,
    amax: int,
    doc: Seq<Prim>,
    k: int,
) -> bool {
    let vals = request.eff_values();
    &&& 0 <= k
    &&& k + vals.len() <= doc.len()
    &&& amax > 0
    &&& forall|s: int|
        0 <= s < vals.len() ==> ((#[trigger] doc[k + s]) matches Prim::Path { d, attrs } && d@
            == area_path(vals[s], amax, area_seg(vals[0].len() as int)) && attrs@ == area_attrs(
            request,
            s,
        ))
}

impl AreaChart {
    /// Lays out an area chart.  A request whose first plotted series is
    /// empty, or whose largest value is not positive, yields an empty
    /// drawing; otherwise the result renders a document holding one
    /// closed area path per series, scaled by the shared maximum.
    pub fn generate(&self, request: &GraphRequest) -> (r: String)
        requires
            request.wf(),
        ensures
            request.eff_values()[0].len() > 0 ==> exists|amax: int|
                #[trigger] is_vals_max(request.eff_values(), amax) && ((amax <= 0 && r@
                    == Seq::<char>::empty()) || (amax > 0 && exists|doc: Seq<Prim>, k: int|
                    #[trigger] area_doc_ok(request, amax, doc, k) && r@ == render_doc(doc))),
    {
        let ghost vals = request.eff_values();
        let fb: Vec<Series> = if request.series.len() == 0 {
            data_as_series(&request.data, None)
        } else {
            Vec::new()
        };
        let series: &Vec<Series> = if request.series.len() > 0 {
            &request.series
        } else {
            &fb
        };
        proof {
            assert(series@.map_values(|q: Series| q.values()) =~= vals);
            assert(forall|q: int|
                0 <= q < series@.len() ==> (#[trigger] vals[q]) == series@[q].values());
            assert(forall|q: int| 0 <= q < series@.len() ==> (#[trigger] series@[q]).wf()) by {
                if request.series@.len() == 0 {
                    assert(series@[0].values() =~= request.data@.map_values(|v: i64| v as int));
                    assert(forall|j: int|
                        0 <= j < series@[0].values().len() ==> #[trigger] series@[0].values()[j]
                            == request.data@[j] as int);
                }
            }
        }
        let n0 = series[0].data.len();
        proof {
            assert(vals[0].len() == n0);
        }
        if n0 == 0 {
            return String::new();
        }
        let amax = crate::charts::get_max_value(series);
        proof {
            assert(amax > i64::MIN) by {
                assert(series@[0].values().len() >= 1);
                assert(series@[0].values()[0] <= amax);
                assert(series@[0].wf());
            }
            assert forall|q: int, i: int|
                0 <= q < vals.len() && 0 <= i < vals[q].len() implies #[trigger] vals[q][i]
                <= amax as int by {
                assert(vals[q] == series@[q].values());
            }
            let (ws, wi) = choose|ws: int, wi: int|
                0 <= ws < series@.len() && 0 <= wi < series@[ws].values().len()
                    && #[trigger] series@[ws].values()[wi] == amax;
            assert(vals[ws] == series@[ws].values());
            assert(is_vals_max(vals, amax as int));
        }
        if amax <= 0 {
            return String::new();
        }
        let seg: i64 = if n0 > 1 {
            640000 / ((n0 as i64) - 1)
        } else {
            0
        };
        let mut doc: Vec<Prim> = Vec::new();
        doc.push(
            Prim::Raw {
                markup: create_svg_header(
                    match &request.title {
                        Some(t) => Some(t.as_str()),
                        None => None,
                    },
                    match &request.x_label {
                        Some(t) => Some(t.as_str()),
                        None => None,
                    },
                    match &request.y_label {
                        Some(t) => Some(t.as_str()),
                        None => None,
                    },
                ),
            },
        );
        let palette = request_palette(request);
        let ghost pal = palette@.map_values(|x: String| x@);
        let ghost k = doc@.len();
        let nseries = series.len();
        let mut s: usize = 0;
        while s < nseries
            invariant
                nseries == series@.len(),
                vals == series@.map_values(|q: Series| q.values()),
                vals.len() == series@.len(),
                forall|q: int| 0 <= q < series@.len() ==> (#[trigger] series@[q]).wf(),
                1 <= n0 <= MAX_POINTS,
                vals[0].len() == n0,
                0 < amax <= VALUE_LIMIT,
                seg as int == area_seg(n0 as int),
                0 <= seg <= 640000,
                palette@.len() > 0,
                pal == palette@.map_values(|x: String| x@),
                pal =~= req_palette(request),
                vals == request.eff_values(),
                s <= nseries,
                doc@.len() == k + s,
                doc_wf(doc@),
                forall|q: int|
                    0 <= q < s ==> ((#[trigger] doc@[k + q]) matches Prim::Path { d, attrs } && d@
                        == area_path(vals[q], amax as int, area_seg(vals[0].len() as int))
                        && attrs@ == area_attrs(request, q)),
            decreases nseries - s,
        {
            let ser = &series[s];
            let np = ser.data.len();
            let mut d = String::from_str("M 0 450");
            let mut j: usize = 0;
            while j < np
                invariant
                    s < series@.len(),
                    *ser == series@[s as int],
                    vals.len() == series@.len(),
                    vals[s as int] == series@[s as int].values(),
                    series@[s as int].wf(),
                    np == ser.data@.len(),
                    0 < amax <= VALUE_LIMIT,
                    0 <= seg <= 640000,
                    j <= np,
                    d@ == "M 0 450"@ + area_lsegs(vals[s as int], amax as int, seg as int, j as int),
                decreases np - j,
            {
                let v = ser.data[j].value;
                proof {
                    assert(vals[s as int][j as int] == v as int);
                    assert(0 <= (j as int) * (seg as int) <= 100_000int * 640000)
                        by (nonlinear_arith)
                        requires
                            0 <= j <= 100_000,
                            0 <= seg <= 640000,
                    ;
                }
                let x = (j as i64) * seg;
                let h = crate::charts::bar::bar_h_exec(v, amax);
                d.append(" L ");
                let c = fmt_milli_1dp(x);
                d.append(c.as_str());
                d.append(" ");
                let c = fmt_milli_1dp(450000 - h);
                d.append(c.as_str());
                proof {
                    assert(d@ =~= "M 0 450"@ + area_lsegs(
                        vals[s as int],
                        amax as int,
                        seg as int,
                        j as int + 1,
                    ));
                }
                j += 1;
            }
            proof {
                assert(-640000 <= (np as int - 1) * (seg as int) <= 100_000int * 640000)
                    by (nonlinear_arith)
                    requires
                        0 <= np <= 100_000,
                        0 <= seg <= 640000,
                ;
            }
            let lastx = ((np as i64) - 1) * seg;
            d.append(" L ");
            let c = fmt_milli_1dp(lastx);
            d.append(c.as_str());
            d.append(" 450 Z");
            proof {
                assert(d@ =~= area_path(vals[s as int], amax as int, seg as int));
            }
            let color: &str = palette[s % palette.len()].as_str();
            let mut attrs = crate::canvas::fill_attr(color);
            attrs.append(" fill-opacity=\"0.3\" ");
            let sa = crate::canvas::stroke_attr(color);
            attrs.append(sa.as_str());
            attrs.append(" stroke-width=\"2\"");
            proof {
                assert(color@ == area_fill(request, s as int));
                assert(attrs@ =~= area_attrs(request, s as int));
            }
            let ghost d0 = doc@;
            doc.push(Prim::Path { d, attrs });
            proof {
                assert forall|q: int| 0 <= q < s + 1 implies ((#[trigger] doc@[k + q]) matches
                    Prim::Path { d, attrs } && d@ == area_path(
                    vals[q],
                    amax as int,
                    area_seg(vals[0].len() as int),
                ) && attrs@ == area_attrs(request, q)) by {
                    if q < s {
                        assert(doc@[k + q] == d0[k + q]);
                    }
                }
            }
            s += 1;
        }
        // Points and value labels above each vertex.
        let ghost dm = doc@;
        let mut s2: usize = 0;
        while s2 < nseries
            invariant
                nseries == series@.len(),
                vals.len() == series@.len(),
                forall|q: int| 0 <= q < series@.len() ==> (#[trigger] series@[q]).wf(),
                forall|q: int|
                    0 <= q < series@.len() ==> (#[trigger] vals[q]) == series@[q].values(),
                0 < amax <= VALUE_LIMIT,
                0 <= seg <= 640000,
                palette@.len() > 0,
                s2 <= nseries,
                doc@.len() >= k + nseries,
                doc_wf(doc@),
                forall|q: int| 0 <= q < nseries ==> #[trigger] doc@[k + q] == dm[k + q],
                dm.len() == k + nseries,
            decreases nseries - s2,
        {
            let ser = &series[s2];
            let color: &str = palette[s2 % palette.len()].as_str();
            let np = ser.data.len();
            let mut j: usize = 0;
            while j < np
                invariant
                    s2 < series@.len(),
                    *ser == series@[s2 as int],
                    vals.len() == series@.len(),
                    vals[s2 as int] == series@[s2 as int].values(),
                    series@[s2 as int].wf(),
                    np == ser.data@.len(),
                    0 < amax <= VALUE_LIMIT,
                    0 <= seg <= 640000,
                    j <= np,
                    nseries == series@.len(),
                    doc@.len() >= k + nseries,
                    doc_wf(doc@),
                    forall|q: int| 0 <= q < nseries ==> #[trigger] doc@[k + q] == dm[k + q],
                decreases np - j,
            {
                let v = ser.data[j].value;
                proof {
                    assert(vals[s2 as int][j as int] == v as int);
                    assert(0 <= (j as int) * (seg as int) <= 100_000int * 640000)
                        by (nonlinear_arith)
                        requires
                            0 <= j <= 100_000,
                            0 <= seg <= 640000,
                    ;
                }
                let x = (j as i64) * seg;
                let h = crate::charts::bar::bar_h_exec(v, amax);
                let y = 450000 - h;
                doc.push(Prim::Circle { cx: x, cy: y, r: 4000, attrs: crate::canvas::fill_attr(color) });
                doc.push(
                    Prim::Text {
                        x,
                        y: y - 5000,
                        attrs: String::from_str(
                            "text-anchor=\"middle\" font-family=\"M PLUS 1p\" font-size=\"12\"",
                        ),
                        content: fmt_milli_1dp(v),
                    },
                );
                j += 1;
            }
            s2 += 1;
        }
        doc.push(Prim::Raw { markup: String::from_str("</g></svg>") });
        let out = render(&doc);
        proof {
            assert forall|q: int| 0 <= q < vals.len() implies ((#[trigger] doc@[k + q]) matches
                Prim::Path { d, attrs } && d@ == area_path(
                vals[q],
                amax as int,
                area_seg(vals[0].len() as int),
            ) && attrs@ == area_attrs(request, q)) by {
                assert(doc@[k + q] == dm[k + q]);
            }
            assert(area_doc_ok(request, amax as int, doc@, k as int));
        }
        out
    }
}

impl Chart for AreaChart {
    fn generate(&self, request: &GraphRequest) -> (svg: String) {
        AreaChart::generate(self, request)
    }
}

} // verus!
