//! Line chart layout.
//!
//! One path per series connects successive points by straight segments;
//! X positions come from the category index and Y positions from the
//! shared min/max value range mapped onto the plot height.  Points are
//! drawn as filled circles with the raw value labelled above each.
//! Colors are resolved at emission time from the active theme.

use vstd::prelude::*;
use crate::canvas::{doc_wf, path_from_points, path_pts, render, render_doc, stroke_attr, Prim};
use crate::charts::{data_as_series, is_vals_max, is_vals_min, Chart};
use crate::models::{GraphRequest, Series, MAX_POINTS, VALUE_LIMIT};
use crate::num::{fmt_milli_1dp, u64_str};
use crate::canvas::stroke_attr_spec;
use crate::scale::{v2p, value_to_pixel};
use crate::themes::{
    dark_palette,
    light_palette,
    lower_chars,
    material_palette,
    minimal_palette,
    ThemeManager,
};

verus! {

/// Line chart layout.
pub struct LineChart {}

/// The X spacing between successive points: the axis width over the gap
/// count of the first series (zero when it has a single point).
pub open spec fn line_seg(n0: int) -> int {
    if n0 > 1 {
        640000int / (n0 - 1)
    } else {
        0
    }
}

/// The palette of the request's active theme (the light theme when no
/// theme or an unknown one is named).
pub open spec fn line_theme_palette(request: &GraphRequest) -> Seq<Seq<char>> {
    match request.theme {
        Option::Some(t) => if lower_chars(t@) == "dark"@ {
            dark_palette()
        } else if lower_chars(t@) == "material"@ {
            material_palette()
        } else if lower_chars(t@) == "minimal"@ {
            minimal_palette()
        } else {
            light_palette()
        },
        Option::None => light_palette(),
    }
}

/// The stroke of one line: the series color, or the theme palette entry
/// at the series index; the flat shorthand takes the first entry.
pub open spec fn line_stroke(request: &GraphRequest, s: int) -> Seq<char> {
    let pal = line_theme_palette(request);
    if request.series@.len() > 0 {
        match request.series@[s].color {
            Option::Some(c) => c@,
            Option::None => pal[s % pal.len() as int],
        }
    } else {
        pal[0]
    }
}

/// The attributes of one line path.
pub open spec fn line_attrs(request: &GraphRequest, s: int) -> Seq<char> {
    stroke_attr_spec(line_stroke(request, s)) + " stroke-width=\"2\" fill=\"none\""@
}

/// The polyline points of one series: X from the index, Y from the shared
/// value range mapped onto the plot height (Y axis runs downward).
pub open spec fn line_pts(vs: Seq<int>, vmin: int, vmax: int, seg: int) -> Seq<(int, int)> {
    Seq::new(vs.len(), |i: int| (i * seg, v2p(vs[i], vmin, vmax, 450000, 50000)))
}

/// A document that holds a rendered line chart: somewhere in it stand the
/// series' polyline paths, in series order.
pub open spec fn line_doc_ok(
    request: &GraphRequest,
    vmin: int,
    vmax: int,
    doc: Seq<Prim>,
    k: int,
) -> bool {
    let vals = request.eff_values();
    &&& 0 <= k
    &&& k + vals.len() <= doc.len()
    &&& forall|s: int|
        0 <= s < vals.len() ==> ((#[trigger] doc[k + s]) matches Prim::Path { d, attrs } && d@
            == path_pts(line_pts(vals[s], vmin, vmax, line_seg(vals[0].len() as int)), false)
            && attrs@ == line_attrs(request, s))
}

impl LineChart {
    /// Lays out a line chart.  A request whose first plotted series is
    /// empty yields an empty drawing; otherwise the result renders a
    /// document holding one polyline path per series over the shared
    /// min/max value range.
    pub fn generate(&self, request: &GraphRequest) -> (r: String)
        requires
            request.wf(),
        ensures
            request.eff_values()[0].len() == 0 ==> r@ == Seq::<char>::empty(),
            request.eff_values()[0].len() > 0 ==> exists|
                vmin: int,
                vmax: int,
                doc: Seq<Prim>,
                k: int,
            |
                #[trigger] line_doc_ok(request, vmin, vmax, doc, k) && is_vals_min(
                    request.eff_values(),
                    vmin,
                ) && is_vals_max(request.eff_values(), vmax) && r@ == render_doc(doc),
    {
        let ghost vals = request.eff_values();
        let theme = match &request.theme {
            Some(t) => ThemeManager::from_name(t.as_str()),
            None => ThemeManager::from_name("light"),
        };
        proof {
            if request.theme is None {
                reveal_strlit("light");
                reveal_strlit("dark");
                reveal_strlit("material");
                reveal_strlit("minimal");
                assert(lower_chars("light"@) =~= "light"@);
                assert("light"@.len() == 5);
                assert("dark"@.len() == 4);
                assert("material"@.len() == 8);
                assert("minimal"@.len() == 7);
            }
            assert(theme.palette() =~= line_theme_palette(request));
        }
        let fb: Vec<Series> = if request.series.len() == 0 {
            data_as_series(&request.data, Some(theme.get_color(0).clone()))
        } else {
            Vec::new()
        };
        let series: &Vec<Series> = if request.series.len() > 0 {
            &request.series
        } else {
            &fb
        };
        proof {
            assert(series@.map_values(|q: Series| q.values()) =~= vals);
            assert(forall|q: int|
                0 <= q < series@.len() ==> (#[trigger] vals[q]) == series@[q].values());
            assert(forall|q: int| 0 <= q < series@.len() ==> (#[trigger] series@[q]).wf()) by {
                if request.series@.len() == 0 {
                    assert(series@[0].values() =~= request.data@.map_values(|v: i64| v as int));
                    assert(forall|j: int|
                        0 <= j < series@[0].values().len() ==> #[trigger] series@[0].values()[j]
                            == request.data@[j] as int);
                }
            }
        }
        let n0 = series[0].data.len();
        proof {
            assert(vals[0].len() == n0);
        }
        if n0 == 0 {
            return String::new();
        }
        let seg: i64 = if n0 > 1 {
            640000 / ((n0 as i64) - 1)
        } else {
            0
        };
        let vmin = crate::charts::get_min_value(series);
        let vmax = crate::charts::get_max_value(series);
        proof {
            assert(series@[0].values()[0] <= vmax);
            assert(vmin <= series@[0].values()[0]);
            assert(series@[0].wf());
            assert(valid_both(vmin as int, vmax as int)) by {
                let (ws, wi) = choose|ws: int, wi: int|
                    0 <= ws < series@.len() && 0 <= wi < series@[ws].values().len()
                        && #[trigger] series@[ws].values()[wi] == vmin;
                assert(series@[ws].wf());
                let (xs, xi) = choose|xs: int, xi: int|
                    0 <= xs < series@.len() && 0 <= xi < series@[xs].values().len()
                        && #[trigger] series@[xs].values()[xi] == vmax;
                assert(series@[xs].wf());
            }
            assert forall|q: int, i: int|
                0 <= q < vals.len() && 0 <= i < vals[q].len() implies vmin as int
                <= #[trigger] vals[q][i] <= vmax as int by {
                assert(vals[q] == series@[q].values());
            }
        }
        let mut doc: Vec<Prim> = Vec::new();
        let mut header = String::from_str(
            "<?xml version=\"1.0\" encoding=\"UTF-8\" standalone=\"no\"?>\n<svg width=\"800\" height=\"600\" xmlns=\"http://www.w3.org/2000/svg\">\n<rect width=\"800\" height=\"600\" fill=\"",
        );
        header.append(theme.background.as_str());
        header.append("\"/>\n<g transform=\"translate(80, 50)\">");
        doc.push(Prim::Raw { markup: header });
        if let Some(title) = &request.title {
            let mut attrs = crate::canvas::fill_attr(theme.text.as_str());
            attrs.append(" text-anchor=\"middle\" font-size=\"20\"");
            doc.push(Prim::Text { x: 320000, y: 30000, attrs, content: title.clone() });
        }
        if let Some(xl) = &request.x_label {
            let mut attrs = crate::canvas::fill_attr(theme.text.as_str());
            attrs.append(" text-anchor=\"middle\" font-size=\"14\"");
            doc.push(Prim::Text { x: 320000, y: 520000, attrs, content: xl.clone() });
        }
        if let Some(yl) = &request.y_label {
            let mut attrs = crate::canvas::fill_attr(theme.text.as_str());
            attrs.append(
                " text-anchor=\"middle\" font-size=\"14\" transform=\"rotate(-90, -280, -50)\"",
            );
            doc.push(Prim::Text { x: -280000, y: -50000, attrs, content: yl.clone() });
        }
        // Axes.
        let mut ax_attrs = stroke_attr(theme.axis.as_str());
        ax_attrs.append(" stroke-width=\"2\"");
        let ax2 = ax_attrs.clone();
        doc.push(Prim::Line { x1: 0, y1: 450000, x2: 640000, y2: 450000, attrs: ax_attrs });
        doc.push(Prim::Line { x1: 0, y1: 50000, x2: 0, y2: 450000, attrs: ax2 });
        // Y ticks, labels and grid.
        let mut t: i64 = 0;
        while t <= 5
            invariant
                0 <= t <= 6,
                -VALUE_LIMIT <= vmin <= vmax <= VALUE_LIMIT,
                doc_wf(doc@),
            decreases 6 - t,
        {
            let y = 450000 - 80000 * t;
            let mut la = stroke_attr(theme.axis.as_str());
            la.append(" stroke-width=\"2\"");
            doc.push(Prim::Line { x1: -5000, y1: y, x2: 0, y2: y, attrs: la });
            proof {
                assert(0 <= ((vmax - vmin) as int) * (t as int) <= 2_000_000_000_000int * 5)
                    by (nonlinear_arith)
                    requires
                        0 <= (vmax - vmin) as int <= 2_000_000_000_000int,
                        0 <= t <= 5,
                ;
                vstd::arithmetic::div_mod::lemma_div_pos_is_pos(
                    ((vmax - vmin) as int) * (t as int),
                    5,
                );
                vstd::arithmetic::div_mod::lemma_div_is_ordered(
                    ((vmax - vmin) as int) * (t as int),
                    2_000_000_000_000int * 5,
                    5,
                );
            }
            let tv = vmin + ((((vmax - vmin) as u64) * (t as u64)) / 5u64) as i64;
            let mut ta = crate::canvas::fill_attr(theme.text.as_str());
            ta.append(" text-anchor=\"end\" font-size=\"12\"");
            doc.push(Prim::Text { x: -10000, y: y + 4000, attrs: ta, content: fmt_milli_1dp(tv) });
            if t > 0 {
                let mut ga = stroke_attr(theme.grid.as_str());
                ga.append(" stroke-width=\"1\" stroke-dasharray=\"4\"");
                doc.push(Prim::Line { x1: 0, y1: y, x2: 640000, y2: y, attrs: ga });
            }
            t += 1;
        }
        // X ticks.
        let mut i: usize = 0;
        while i < n0
            invariant
                i <= n0,
                n0 <= MAX_POINTS,
                0 <= seg <= 640000,
                doc_wf(doc@),
            decreases n0 - i,
        {
            proof {
                assert(0 <= (i as int) * (seg as int) <= 100_000int * 640000) by (nonlinear_arith)
                    requires
                        0 <= i <= 100_000,
                        0 <= seg <= 640000,
                ;
            }
            let x = (i as i64) * seg;
            let mut la = stroke_attr(theme.axis.as_str());
            la.append(" stroke-width=\"2\"");
            doc.push(Prim::Line { x1: x, y1: 450000, x2: x, y2: 455000, attrs: la });
            let mut ta = crate::canvas::fill_attr(theme.text.as_str());
            ta.append(" text-anchor=\"middle\" font-size=\"12\"");
            doc.push(Prim::Text { x, y: 470000, attrs: ta, content: u64_str((i as u64) + 1) });
            i += 1;
        }
        // One polyline path per series.
        let ghost k = doc@.len();
        let nseries = series.len();
        let mut s: usize = 0;
        while s < nseries
            invariant
                nseries == series@.len(),
                vals == series@.map_values(|q: Series| q.values()),
                vals.len() == series@.len(),
                forall|q: int| 0 <= q < series@.len() ==> (#[trigger] series@[q]).wf(),
                forall|q: int, i: int|
                    0 <= q < vals.len() && 0 <= i < vals[q].len() ==> vmin as int
                        <= #[trigger] vals[q][i] <= vmax as int,
                -VALUE_LIMIT <= vmin <= vmax <= VALUE_LIMIT,
                n0 >= 1,
                n0 <= MAX_POINTS,
                vals[0].len() == n0,
                seg as int == line_seg(n0 as int),
                0 <= seg <= 640000,
                theme.colors@.len() == 8,
                theme.palette() =~= line_theme_palette(request),
                vals == request.eff_values(),
                request.series@.len() > 0 ==> series@ == request.series@,
                request.series@.len() == 0 ==> nseries == 1 && (series@[0].color matches
                    Option::Some(c) && c@ == line_theme_palette(request)[0]),
                s <= nseries,
                doc@.len() == k + s,
                doc_wf(doc@),
                forall|q: int|
                    0 <= q < s ==> ((#[trigger] doc@[k + q]) matches Prim::Path { d, attrs } && d@
                        == path_pts(
                        line_pts(vals[q], vmin as int, vmax as int, line_seg(vals[0].len() as int)),
                        false,
                    ) && attrs@ == line_attrs(request, q)),
            decreases nseries - s,
        {
            let ser = &series[s];
            let np = ser.data.len();
            let mut pts: Vec<(i64, i64)> = Vec::new();
            let mut j: usize = 0;
            while j < np
                invariant
                    s < series@.len(),
                    *ser == series@[s as int],
                    vals.len() == series@.len(),
                    vals[s as int] == series@[s as int].values(),
                    series@[s as int].wf(),
                    np == ser.data@.len(),
                    forall|q: int, i: int|
                        0 <= q < vals.len() && 0 <= i < vals[q].len() ==> vmin as int
                            <= #[trigger] vals[q][i] <= vmax as int,
                    -VALUE_LIMIT <= vmin <= vmax <= VALUE_LIMIT,
                    0 <= seg <= 640000,
                    j <= np,
                    pts@.len() == j,
                    forall|q: int|
                        0 <= q < j ==> ((#[trigger] pts@[q]).0 as int, pts@[q].1 as int)
                            == line_pts(vals[s as int], vmin as int, vmax as int, seg as int)[q],
                    forall|q: int|
                        0 <= q < j ==> 0 <= (#[trigger] pts@[q]).0 <= 1_000_000_000_000_000i64 && 0
                            <= pts@[q].1 <= 1_000_000_000_000_000i64,
                decreases np - j,
            {
                let v = ser.data[j].value;
                proof {
                    assert(vals[s as int][j as int] == v as int);
                    assert(0 <= (j as int) * (seg as int) <= 100_000int * 640000)
                        by (nonlinear_arith)
                        requires
                            0 <= j <= 100_000,
                            0 <= seg <= 640000,
                    ;
                }
                let x = (j as i64) * seg;
                let y = value_to_pixel(v, vmin, vmax, 450000, 50000);
                pts.push((x, y));
                j += 1;
            }
            let d = path_from_points(&pts, false);
            proof {
                assert(pts@.map_values(|p: (i64, i64)| (p.0 as int, p.1 as int)) =~= line_pts(
                    vals[s as int],
                    vmin as int,
                    vmax as int,
                    seg as int,
                ));
            }
            let color: &str = match &ser.color {
                Some(c) => c.as_str(),
                None => theme.get_color(s).as_str(),
            };
            proof {
                assert(color@ == line_stroke(request, s as int)) by {
                    if request.series@.len() > 0 {
                        assert(*ser == request.series@[s as int]);
                    }
                }
            }
            let mut pa = stroke_attr(color);
            pa.append(" stroke-width=\"2\" fill=\"none\"");
            proof {
                assert(pa@ =~= line_attrs(request, s as int));
            }
            let ghost d0 = doc@;
            doc.push(Prim::Path { d, attrs: pa });
            proof {
                assert forall|q: int| 0 <= q < s + 1 implies ((#[trigger] doc@[k + q]) matches
                    Prim::Path { d, attrs } && d@ == path_pts(
                    line_pts(vals[q], vmin as int, vmax as int, line_seg(vals[0].len() as int)),
                    false,
                ) && attrs@ == line_attrs(request, q)) by {
                    if q < s {
                        assert(doc@[k + q] == d0[k + q]);
                    }
                }
            }
            s += 1;
        }
        // Points and value labels.
        let ghost dm = doc@;
        let mut s2: usize = 0;
        while s2 < nseries
            invariant
                nseries == series@.len(),
                vals == series@.map_values(|q: Series| q.values()),
                vals.len() == series@.len(),
                forall|q: int| 0 <= q < series@.len() ==> (#[trigger] series@[q]).wf(),
                forall|q: int, i: int|
                    0 <= q < vals.len() && 0 <= i < vals[q].len() ==> vmin as int
                        <= #[trigger] vals[q][i] <= vmax as int,
                -VALUE_LIMIT <= vmin <= vmax <= VALUE_LIMIT,
                0 <= seg <= 640000,
                theme.colors@.len() > 0,
                s2 <= nseries,
                doc@.len() >= dm.len(),
                doc_wf(doc@),
                forall|q: int| 0 <= q < dm.len() ==> #[trigger] doc@[q] == dm[q],
            decreases nseries - s2,
        {
            let ser = &series[s2];
            let color: &str = match &ser.color {
                Some(c) => c.as_str(),
                None => theme.get_color(s2).as_str(),
            };
            let np = ser.data.len();
            let mut j: usize = 0;
            while j < np
                invariant
                    s2 < series@.len(),
                    *ser == series@[s2 as int],
                    vals.len() == series@.len(),
                    vals[s2 as int] == series@[s2 as int].values(),
                    series@[s2 as int].wf(),
                    np == ser.data@.len(),
                    forall|q: int, i: int|
                        0 <= q < vals.len() && 0 <= i < vals[q].len() ==> vmin as int
                            <= #[trigger] vals[q][i] <= vmax as int,
                    -VALUE_LIMIT <= vmin <= vmax <= VALUE_LIMIT,
                    0 <= seg <= 640000,
                    theme.colors@.len() > 0,
                    j <= np,
                    doc@.len() >= dm.len(),
                    doc_wf(doc@),
                    forall|q: int| 0 <= q < dm.len() ==> #[trigger] doc@[q] == dm[q],
                decreases np - j,
            {
                let v = ser.data[j].value;
                proof {
                    assert(vals[s2 as int][j as int] == v as int);
                    assert(0 <= (j as int) * (seg as int) <= 100_000int * 640000)
                        by (nonlinear_arith)
                        requires
                            0 <= j <= 100_000,
                            0 <= seg <= 640000,
                    ;
                }
                let x = (j as i64) * seg;
                let y = value_to_pixel(v, vmin, vmax, 450000, 50000);
                doc.push(Prim::Circle { cx: x, cy: y, r: 4000, attrs: crate::canvas::fill_attr(color) });
                let mut ta = crate::canvas::fill_attr(theme.text.as_str());
                ta.append(" text-anchor=\"middle\" font-size=\"12\"");
                doc.push(Prim::Text { x, y: y - 10000, attrs: ta, content: fmt_milli_1dp(v) });
                j += 1;
            }
            s2 += 1;
        }
        // Legend for multiple series.
        if nseries > 1 {
            let mut yoff: i64 = 50000;
            let mut s3: usize = 0;
            while s3 < nseries
                invariant
                    nseries == series@.len(),
                    series@.len() <= 1000,
                    theme.colors@.len() > 0,
                    s3 <= nseries,
                    50000 <= yoff <= 50000 + 25000 * (s3 as i64),
                    doc@.len() >= dm.len(),
                    doc_wf(doc@),
                    forall|q: int| 0 <= q < dm.len() ==> #[trigger] doc@[q] == dm[q],
                decreases nseries - s3,
            {
                let ser = &series[s3];
                if let Some(nm) = &ser.name {
                    let color: &str = match &ser.color {
                        Some(c) => c.as_str(),
                        None => theme.get_color(s3).as_str(),
                    };
                    doc.push(
                        Prim::Rect {
                            x: 520000,
                            y: yoff,
                            w: 20000,
                            h: 20000,
                            attrs: crate::canvas::fill_attr(color),
                        },
                    );
                    let mut ta = crate::canvas::fill_attr(theme.text.as_str());
                    ta.append(" font-size=\"12\"");
                    doc.push(
                        Prim::Text { x: 545000, y: yoff + 15000, attrs: ta, content: nm.clone() },
                    );
                    yoff = yoff + 25000;
                }
                s3 += 1;
            }
        }
        doc.push(Prim::Raw { markup: String::from_str("</g></svg>") });
        let out = render(&doc);
        proof {
            assert(dm.len() >= k + nseries);
            assert forall|q: int| 0 <= q < vals.len() implies ((#[trigger] doc@[k + q]) matches
                Prim::Path { d, attrs } && d@ == path_pts(
                line_pts(vals[q], vmin as int, vmax as int, line_seg(vals[0].len() as int)),
                false,
            ) && attrs@ == line_attrs(request, q)) by {
                assert(doc@[k + q] == dm[k + q]);
            }
            assert(line_doc_ok(request, vmin as int, vmax as int, doc@, k as int));
            assert(is_vals_min(vals, vmin as int)) by {
                let (ws, wi) = choose|ws: int, wi: int|
                    0 <= ws < series@.len() && 0 <= wi < series@[ws].values().len()
                        && #[trigger] series@[ws].values()[wi] == vmin;
                assert(vals[ws] == series@[ws].values());
                assert(vals[ws][wi] == vmin as int);
            }
            assert(is_vals_max(vals, vmax as int)) by {
                let (ws, wi) = choose|ws: int, wi: int|
                    0 <= ws < series@.len() && 0 <= wi < series@[ws].values().len()
                        && #[trigger] series@[ws].values()[wi] == vmax;
                assert(vals[ws] == series@[ws].values());
                assert(vals[ws][wi] == vmax as int);
            }
        }
        out
    }
}

/// Both range ends stay within the engine's value bounds.
pub open spec fn valid_both(vmin: int, vmax: int) -> bool {
    &&& -(VALUE_LIMIT as int) <= vmin <= VALUE_LIMIT as int
    &&& -(VALUE_LIMIT as int) <= vmax <= VALUE_LIMIT as int
}

impl Chart for LineChart {
    fn generate(&self, request: &GraphRequest) -> (svg: String) {
        LineChart::generate(self, request)
    }
}

} // verus!
