//! Bubble layout.
//!
//! Each plotted item carries three dimensions: X, Y and size, taken from
//! explicit triples when the flat data length is a multiple of three, or
//! synthesized from a single series (X from the index, Y from the value,
//! size from the value's magnitude).  X and Y are independently
//! normalized into the plot rectangle, and the size into the configured
//! radius bounds.

use vstd::prelude::*;
use crate::canvas::{doc_wf, render, render_doc, Prim};
use crate::charts::Chart;
use crate::models::{valid_value, GraphRequest, MAX_POINTS};
use crate::num::fmt_milli_1dp;
use crate::scale::v2p;

verus! {

/// Bubble configuration: the radius bounds (milli-pixels) and whether
/// bubbles carry their labels.
pub struct BubbleChart {
    pub min_bubble_size: i64,
    pub max_bubble_size: i64,
    pub show_labels: bool,
}

impl Default for BubbleChart {
    /// Radii between five and thirty pixels, no labels.
    fn default() -> (r: Self)
        ensures
            r.min_bubble_size == 5000,
            r.max_bubble_size == 30000,
            !r.show_labels,
    {
        BubbleChart { min_bubble_size: 5000, max_bubble_size: 30000, show_labels: false }
    }
}

/// One plotted item: X, Y and size, with optional label and color.
pub struct BubbleData {
    pub x: i64,
    pub y: i64,
    pub size: i64,
    pub label: Option<String>,
    pub color: Option<String>,
}

/// The size a synthesized bubble gets: half the value's magnitude plus
/// ten units.
pub open spec fn synth_size(v: int) -> int {
    (if v >= 0 {
        v
    } else {
        -v
    }) / 2 + 10000
}

/// The triples a request stands for: the first series (X from the index),
/// explicit triples from the flat data, or the flat data as values.
pub open spec fn bubble_vals(request: &GraphRequest) -> Seq<(int, int, int)> {
    if request.series@.len() > 0 {
        Seq::new(
            request.series@[0].values().len(),
            |i: int|
                (i * 1000, request.series@[0].values()[i], synth_size(
                    request.series@[0].values()[i],
                )),
        )
    } else if request.data@.len() > 0 && request.data@.len() % 3 == 0 {
        Seq::new(
            request.data@.len() / 3,
            |i: int|
                (
                    request.data@[3 * i] as int,
                    request.data@[3 * i + 1] as int,
                    request.data@[3 * i + 2] as int,
                ),
        )
    } else {
        Seq::new(
            request.data@.len(),
            |i: int| (i * 1000, request.data@[i] as int, synth_size(request.data@[i] as int)),
        )
    }
}

/// The configured minimum radius forced into sane pixel bounds.
pub open spec fn eff_min_r(r: int) -> int {
    if r < 0 {
        0
    } else if r > 100_000 {
        100_000
    } else {
        r
    }
}

/// The configured maximum radius, at least the minimum, at most a
/// hundred pixels.
pub open spec fn eff_max_r(rmin: int, rmax: int) -> int {
    if rmax < eff_min_r(rmin) {
        eff_min_r(rmin)
    } else if rmax > 100_000 {
        100_000
    } else {
        rmax
    }
}

/// A bubble's radius: its size's share of the size range mapped into the
/// configured radius bounds; equal sizes take the midpoint.
pub open spec fn bubble_rad(sz: int, minsz: int, maxsz: int, min_r: int, max_r: int) -> int {
    if maxsz > minsz {
        min_r + (sz - minsz) * (max_r - min_r) / (maxsz - minsz)
    } else {
        min_r + (max_r - min_r) / 2
    }
}

/// One bubble: its center from the item's normalized X and Y, its
/// radius from the normalized size, inside the configured bounds.
pub open spec fn bubble_circle_ok(
    p: Prim,
    t: (int, int, int),
    min_r: int,
    max_r: int,
    minx: int,
    maxx: int,
    miny: int,
    maxy: int,
    minsz: int,
    maxsz: int,
) -> bool {
    &&& p matches Prim::Circle { cx: pcx, cy: pcy, r: pr, .. }
    &&& pcx == v2p(t.0, minx, maxx, 80000, 720000)
    &&& pcy == v2p(t.1, miny, maxy, 520000, 80000)
    &&& pr == bubble_rad(t.2, minsz, maxsz, min_r, max_r)
    &&& min_r <= pr <= max_r
}

/// A document that holds a rendered bubble chart: somewhere in it stand
/// one circle per item, its center from the items' normalized X and Y
/// and its radius from the normalized size, inside the configured
/// bounds.
pub open spec fn bubble_doc_ok(
    bvs: Seq<(int, int, int)>,
    min_r: int,
    max_r: int,
    minx: int,
    maxx: int,
    miny: int,
    maxy: int,
    minsz: int,
    maxsz: int,
    doc: Seq<Prim>,
    k: int,
) -> bool {
    &&& 0 <= k
    &&& k + bvs.len() <= doc.len()
    &&& forall|i: int|
        0 <= i < bvs.len() ==> bubble_circle_ok(
            #[trigger] doc[k + i],
            bvs[i],
            min_r,
            max_r,
            minx,
            maxx,
            miny,
            maxy,
            minsz,
            maxsz,
        )
}

impl BubbleChart {
    /// Derives the plotted items of a request.
    pub fn parse_bubble_data(&self, request: &GraphRequest) -> (r: Vec<BubbleData>)
        requires
            request.wf(),
        ensures
            r@.len() == bubble_vals(request).len(),
            forall|i: int|
                0 <= i < r@.len() ==> ((#[trigger] r@[i]).x as int, r@[i].y as int,
                r@[i].size as int) == bubble_vals(request)[i],
            forall|i: int|
                0 <= i < r@.len() ==> -2_000_000_000_000i64 <= (#[trigger] r@[i]).x
                    <= 2_000_000_000_000i64 && -2_000_000_000_000i64 <= r@[i].y
                    <= 2_000_000_000_000i64 && -2_000_000_000_000i64 <= r@[i].size
                    <= 2_000_000_000_000i64,
    {
        let ghost bvs = bubble_vals(request);
        let mut r: Vec<BubbleData> = Vec::new();
        if request.series.len() > 0 {
            let ser = &request.series[0];
            let mut i: usize = 0;
            while i < ser.data.len()
                invariant
                    request.wf(),
                    request.series@.len() > 0,
                    *ser == request.series@[0],
                    bvs == bubble_vals(request),
                    bvs.len() == ser.data@.len(),
                    i <= ser.data@.len(),
                    r@.len() == i,
                    forall|j: int|
                        0 <= j < i ==> ((#[trigger] r@[j]).x as int, r@[j].y as int,
                        r@[j].size as int) == bvs[j],
                    forall|j: int|
                        0 <= j < i ==> -2_000_000_000_000i64 <= (#[trigger] r@[j]).x
                            <= 2_000_000_000_000i64 && -2_000_000_000_000i64 <= r@[j].y
                            <= 2_000_000_000_000i64 && -2_000_000_000_000i64 <= r@[j].size
                            <= 2_000_000_000_000i64,
                decreases ser.data@.len() - i,
            {
                let d = &ser.data[i];
                let v = d.value;
                proof {
                    assert(request.series@[0].values()[i as int] == v);
                    assert(request.series@[0].wf());
                }
                let mag = if v >= 0 {
                    v
                } else {
                    -v
                };
                r.push(
                    BubbleData {
                        x: (i as i64) * 1000,
                        y: v,
                        size: mag / 2 + 10000,
                        label: match &d.label {
                            Some(l) => Some(l.clone()),
                            None => None,
                        },
                        color: match &d.color {
                            Some(c) => Some(c.clone()),
                            None => None,
                        },
                    },
                );
                i += 1;
            }
            r
        } else if request.data.len() > 0 && request.data.len() % 3 == 0 {
            let m = request.data.len() / 3;
            let mut i: usize = 0;
            while i < m
                invariant
                    request.wf(),
                    request.series@.len() == 0,
                    request.data@.len() > 0,
                    request.data@.len() % 3 == 0,
                    m == request.data@.len() / 3,
                    bvs == bubble_vals(request),
                    bvs.len() == m,
                    i <= m,
                    r@.len() == i,
                    forall|j: int|
                        0 <= j < i ==> ((#[trigger] r@[j]).x as int, r@[j].y as int,
                        r@[j].size as int) == bvs[j],
                    forall|j: int|
                        0 <= j < i ==> -2_000_000_000_000i64 <= (#[trigger] r@[j]).x
                            <= 2_000_000_000_000i64 && -2_000_000_000_000i64 <= r@[j].y
                            <= 2_000_000_000_000i64 && -2_000_000_000_000i64 <= r@[j].size
                            <= 2_000_000_000_000i64,
                decreases m - i,
            {
                proof {
                    vstd::arithmetic::div_mod::lemma_fundamental_div_mod(
                        request.data@.len() as int,
                        3,
                    );
                    assert(3 * (i as int) + 2 < request.data@.len()) by (nonlinear_arith)
                        requires
                            (request.data@.len() / 3) as int == m,
                            request.data@.len() == 3 * (request.data@.len() / 3)
                                + request.data@.len() % 3,
                            request.data@.len() % 3 == 0,
                            0 <= i < m,
                    ;
                }
                proof {
                    let mp = request.data@.map_values(|v: i64| v as int);
                    assert(mp[3 * i as int] == request.data@[3 * i as int] as int);
                    assert(mp[3 * i as int + 1] == request.data@[3 * i as int + 1] as int);
                    assert(mp[3 * i as int + 2] == request.data@[3 * i as int + 2] as int);
                    assert(valid_value(request.data@[3 * i as int] as int));
                    assert(valid_value(request.data@[3 * i as int + 1] as int));
                    assert(valid_value(request.data@[3 * i as int + 2] as int));
                }
                r.push(
                    BubbleData {
                        x: request.data[3 * i],
                        y: request.data[3 * i + 1],
                        size: request.data[3 * i + 2],
                        label: None,
                        color: None,
                    },
                );
                i += 1;
            }
            r
        } else {
            let mut i: usize = 0;
            while i < request.data.len()
                invariant
                    request.wf(),
                    request.series@.len() == 0,
                    !(request.data@.len() > 0 && request.data@.len() % 3 == 0),
                    bvs == bubble_vals(request),
                    bvs.len() == request.data@.len(),
                    i <= request.data@.len(),
                    r@.len() == i,
                    forall|j: int|
                        0 <= j < i ==> ((#[trigger] r@[j]).x as int, r@[j].y as int,
                        r@[j].size as int) == bvs[j],
                    forall|j: int|
                        0 <= j < i ==> -2_000_000_000_000i64 <= (#[trigger] r@[j]).x
                            <= 2_000_000_000_000i64 && -2_000_000_000_000i64 <= r@[j].y
                            <= 2_000_000_000_000i64 && -2_000_000_000_000i64 <= r@[j].size
                            <= 2_000_000_000_000i64,
                decreases request.data@.len() - i,
            {
                let v = request.data[i];
                proof {
                    let mp = request.data@.map_values(|v2: i64| v2 as int);
                    assert(mp[i as int] == request.data@[i as int] as int);
                    assert(valid_value(request.data@[i as int] as int));
                }
                let mag = if v >= 0 {
                    v
                } else {
                    -v
                };
                r.push(
                    BubbleData {
                        x: (i as i64) * 1000,
                        y: v,
                        size: mag / 2 + 10000,
                        label: None,
                        color: None,
                    },
                );
                i += 1;
            }
            r
        }
    }

    /// Lays out a bubble chart.  A request without items yields an empty
    /// drawing; otherwise the result renders a document holding one
    /// circle per item whose radius lies inside the configured bounds.
    pub fn generate(&self, request: &GraphRequest) -> (r: String)
        requires
            request.wf(),
        ensures
            bubble_vals(request).len() == 0 ==> r@ == Seq::<char>::empty(),
            bubble_vals(request).len() > 0 ==> exists|
                doc: Seq<Prim>,
                k: int,
                minx: int,
                maxx: int,
                miny: int,
                maxy: int,
                minsz: int,
                maxsz: int,
            |
                #[trigger] bubble_doc_ok(
                    bubble_vals(request),
                    eff_min_r(self.min_bubble_size as int),
                    eff_max_r(self.min_bubble_size as int, self.max_bubble_size as int),
                    minx,
                    maxx,
                    miny,
                    maxy,
                    minsz,
                    maxsz,
                    doc,
                    k,
                ) && crate::charts::is_seq_min(bubble_vals(request).map_values(|t: (int, int, int)| t.0), minx)
                    && crate::charts::is_seq_max(bubble_vals(request).map_values(|t: (int, int, int)| t.0), maxx)
                    && crate::charts::is_seq_min(bubble_vals(request).map_values(|t: (int, int, int)| t.1), miny)
                    && crate::charts::is_seq_max(bubble_vals(request).map_values(|t: (int, int, int)| t.1), maxy)
                    && crate::charts::is_seq_min(bubble_vals(request).map_values(|t: (int, int, int)| t.2), minsz)
                    && crate::charts::is_seq_max(bubble_vals(request).map_values(|t: (int, int, int)| t.2), maxsz)
                    && r@ == render_doc(doc),
    {
        let ghost bvs = bubble_vals(request);
        let min_r = if self.min_bubble_size < 0 {
            0
        } else if self.min_bubble_size > 100_000 {
            100_000
        } else {
            self.min_bubble_size
        };
        let max_r = if self.max_bubble_size < min_r {
            min_r
        } else if self.max_bubble_size > 100_000 {
            100_000
        } else {
            self.max_bubble_size
        };
        // Collect the items and split out their dimensions.
        let items = self.parse_bubble_data(request);
        let mut xs: Vec<i64> = Vec::new();
        let mut ys: Vec<i64> = Vec::new();
        let mut szs: Vec<i64> = Vec::new();
        let mut ii: usize = 0;
        while ii < items.len()
            invariant
                bvs == bubble_vals(request),
                items@.len() == bvs.len(),
                forall|j: int|
                    0 <= j < items@.len() ==> ((#[trigger] items@[j]).x as int, items@[j].y as int,
                    items@[j].size as int) == bvs[j],
                forall|j: int|
                    0 <= j < items@.len() ==> -2_000_000_000_000i64 <= (#[trigger] items@[j]).x
                        <= 2_000_000_000_000i64 && -2_000_000_000_000i64 <= items@[j].y
                        <= 2_000_000_000_000i64 && -2_000_000_000_000i64 <= items@[j].size
                        <= 2_000_000_000_000i64,
                ii <= items@.len(),
                xs@.len() == ii && ys@.len() == ii && szs@.len() == ii,
                forall|j: int|
                    0 <= j < ii ==> #[trigger] xs@[j] == items@[j].x && ys@[j] == items@[j].y
                        && szs@[j] == items@[j].size,
                forall|j: int|
                    0 <= j < ii ==> -2_000_000_000_000i64 <= #[trigger] xs@[j]
                        <= 2_000_000_000_000i64,
                forall|j: int|
                    0 <= j < ii ==> -2_000_000_000_000i64 <= #[trigger] ys@[j]
                        <= 2_000_000_000_000i64,
                forall|j: int|
                    0 <= j < ii ==> -2_000_000_000_000i64 <= #[trigger] szs@[j]
                        <= 2_000_000_000_000i64,
            decreases items@.len() - ii,
        {
            xs.push(items[ii].x);
            ys.push(items[ii].y);
            szs.push(items[ii].size);
            ii += 1;
        }
        let m = xs.len();
        proof {
            assert(bvs.len() == m) by {
                if request.series@.len() > 0 {
                } else if request.data@.len() > 0 && request.data@.len() % 3 == 0 {
                } else {
                }
            }
        }
        if m == 0 {
            return String::new();
        }
        let palette = crate::charts::request_palette(request);
        let minx = crate::scale::min_of(&xs);
        let maxx = crate::scale::max_of(&xs);
        let miny = crate::scale::min_of(&ys);
        let maxy = crate::scale::max_of(&ys);
        let minsz = crate::scale::min_of(&szs);
        let maxsz = crate::scale::max_of(&szs);
        let mut doc: Vec<Prim> = Vec::new();
        doc.push(
            Prim::Raw {
                markup: String::from_str(
                    "<svg width=\"800\" height=\"600\" xmlns=\"http://www.w3.org/2000/svg\">\n  <defs>\n    <style>\n      .bubble { fill-opacity: 0.7; stroke: #333; stroke-width: 1; }\n      .bubble-label { font-family: Arial, sans-serif; font-size: 10px; fill: #333; text-anchor: middle; dominant-baseline: middle; }\n      .axis { stroke: #333; stroke-width: 2; }\n      .axis-text { font-family: Arial, sans-serif; font-size: 12px; fill: #333; }\n      .title { font-family: Arial, sans-serif; font-size: 16px; font-weight: bold; fill: #333; text-anchor: middle; }\n      .grid { stroke: #ddd; stroke-width: 1; stroke-dasharray: 2,2; }\n    </style>\n  </defs>\n  <rect width=\"100%\" height=\"100%\" fill=\"white\"/>",
                ),
            },
        );
        if let Some(title) = &request.title {
            doc.push(
                Prim::Text {
                    x: 400000,
                    y: 30000,
                    attrs: String::from_str("class=\"title\""),
                    content: title.clone(),
                },
            );
        }
        let ghost k = doc@.len();
        let mut i: usize = 0;
        while i < m
            invariant
                m == xs@.len() && m == ys@.len() && m == szs@.len(),
                1 <= m <= MAX_POINTS,
                forall|j: int|
                    0 <= j < m ==> -2_000_000_000_000i64 <= #[trigger] xs@[j]
                        <= 2_000_000_000_000i64,
                forall|j: int|
                    0 <= j < m ==> -2_000_000_000_000i64 <= #[trigger] ys@[j]
                        <= 2_000_000_000_000i64,
                forall|j: int|
                    0 <= j < m ==> -2_000_000_000_000i64 <= #[trigger] szs@[j]
                        <= 2_000_000_000_000i64,
                bvs == bubble_vals(request),
                bvs.len() == m,
                forall|j: int|
                    0 <= j < m ==> ((#[trigger] xs@[j]) as int, ys@[j] as int, szs@[j] as int)
                        == bvs[j],
                forall|j: int| 0 <= j < m ==> minx <= #[trigger] xs@[j] <= maxx,
                forall|j: int| 0 <= j < m ==> miny <= #[trigger] ys@[j] <= maxy,
                forall|j: int| 0 <= j < m ==> minsz <= #[trigger] szs@[j] <= maxsz,
                -2_000_000_000_000i64 <= minx <= maxx <= 2_000_000_000_000i64,
                -2_000_000_000_000i64 <= miny <= maxy <= 2_000_000_000_000i64,
                -2_000_000_000_000i64 <= minsz <= maxsz <= 2_000_000_000_000i64,
                0 <= min_r <= max_r <= 100_000,
                min_r as int == eff_min_r(self.min_bubble_size as int),
                max_r as int == eff_max_r(self.min_bubble_size as int, self.max_bubble_size as int),
                items@.len() == bvs.len(),
                bvs.len() == m,
                palette@.len() > 0,
                i <= m,
                doc@.len() == k + i,
                doc_wf(doc@),
                forall|j: int|
                    0 <= j < i ==> bubble_circle_ok(
                        #[trigger] doc@[k + j],
                        bvs[j],
                        min_r as int,
                        max_r as int,
                        minx as int,
                        maxx as int,
                        miny as int,
                        maxy as int,
                        minsz as int,
                        maxsz as int,
                    ),
            decreases m - i,
        {
            let bx = xs[i];
            let by = ys[i];
            let bsz = szs[i];
            // Normalize X and Y into the plot rectangle; the size into the
            // radius bounds.
            let cx = bubble_axis(bx, minx, maxx, 80000, 720000);
            let cy = bubble_axis(by, miny, maxy, 520000, 80000);
            proof {
                assert(szs@[i as int] as int == bvs[i as int].2);
            }
            let rad: i64 = if maxsz > minsz {
                proof {
                    let a = (bsz - minsz) as int;
                    let d = (maxsz - minsz) as int;
                    let w = (max_r - min_r) as int;
                    assert(0 <= a * w <= 4_000_000_000_000int * 100_000) by (nonlinear_arith)
                        requires
                            0 <= a <= 4_000_000_000_000int,
                            0 <= w <= 100_000,
                    ;
                    assert(a * w <= d * w) by (nonlinear_arith)
                        requires
                            a <= d,
                            0 <= w,
                    ;
                    vstd::arithmetic::div_mod::lemma_div_pos_is_pos(a * w, d);
                    vstd::arithmetic::div_mod::lemma_div_is_ordered(a * w, d * w, d);
                    assert(d * w == w * d) by (nonlinear_arith);
                    vstd::arithmetic::div_mod::lemma_div_multiples_vanish(w, d);
                }
                min_r + ((((bsz - minsz) as u64) * ((max_r - min_r) as u64)) / ((maxsz - minsz) as u64)) as i64
            } else {
                min_r + (max_r - min_r) / 2
            };
            proof {
                assert(xs@[i as int] as int == bvs[i as int].0);
                assert(ys@[i as int] as int == bvs[i as int].1);
                assert(cx as int == v2p(bvs[i as int].0, minx as int, maxx as int, 80000, 720000));
                assert(cy as int == v2p(bvs[i as int].1, miny as int, maxy as int, 520000, 80000));
                assert(rad as int == bubble_rad(
                    bvs[i as int].2,
                    minsz as int,
                    maxsz as int,
                    min_r as int,
                    max_r as int,
                ));
            }
            let color: &str = match &items[i].color {
                Some(c) => c.as_str(),
                None => palette[i % palette.len()].as_str(),
            };
            let mut attrs = crate::canvas::fill_attr(color);
            attrs.append(" class=\"bubble\"");
            let ghost d0 = doc@;
            doc.push(Prim::Circle { cx, cy, r: rad, attrs });
            proof {
                assert((xs@[i as int] as int, ys@[i as int] as int, szs@[i as int] as int)
                    == bvs[i as int]);
                assert(bubble_circle_ok(
                    doc@[k + i as int],
                    bvs[i as int],
                    min_r as int,
                    max_r as int,
                    minx as int,
                    maxx as int,
                    miny as int,
                    maxy as int,
                    minsz as int,
                    maxsz as int,
                ));
                assert forall|j: int| 0 <= j < i + 1 implies bubble_circle_ok(
                    #[trigger] doc@[k + j],
                    bvs[j],
                    min_r as int,
                    max_r as int,
                    minx as int,
                    maxx as int,
                    miny as int,
                    maxy as int,
                    minsz as int,
                    maxsz as int,
                ) by {
                    if j < i {
                        assert(doc@[k + j] == d0[k + j]);
                    }
                }
            }
            i += 1;
        }
        let ghost dm = doc@;
        // Bubble labels.
        if self.show_labels {
            let mut li: usize = 0;
            while li < m
                invariant
                    m == xs@.len() && m == ys@.len() && m == szs@.len(),
                    items@.len() == bvs.len(),
                    bvs.len() == m,
                    forall|j: int|
                        0 <= j < m ==> -2_000_000_000_000i64 <= #[trigger] xs@[j]
                            <= 2_000_000_000_000i64,
                    forall|j: int|
                        0 <= j < m ==> -2_000_000_000_000i64 <= #[trigger] ys@[j]
                            <= 2_000_000_000_000i64,
                    forall|j: int| 0 <= j < m ==> minx <= #[trigger] xs@[j] <= maxx,
                    forall|j: int| 0 <= j < m ==> miny <= #[trigger] ys@[j] <= maxy,
                    -2_000_000_000_000i64 <= minx <= maxx <= 2_000_000_000_000i64,
                    -2_000_000_000_000i64 <= miny <= maxy <= 2_000_000_000_000i64,
                    li <= m,
                    doc_wf(doc@),
                    doc@.len() >= dm.len(),
                    forall|j: int| 0 <= j < dm.len() ==> #[trigger] doc@[j] == dm[j],
                decreases m - li,
            {
                if let Some(lbl) = &items[li].label {
                    let cx = bubble_axis(xs[li], minx, maxx, 80000, 720000);
                    let cy = bubble_axis(ys[li], miny, maxy, 520000, 80000);
                    doc.push(
                        Prim::Text {
                            x: cx,
                            y: cy,
                            attrs: String::from_str("class=\"bubble-label\""),
                            content: lbl.clone(),
                        },
                    );
                }
                li += 1;
            }
        }
        // Axes and the size legend.
        doc.push(
            Prim::Line {
                x1: 80000,
                y1: 520000,
                x2: 720000,
                y2: 520000,
                attrs: String::from_str("class=\"axis\""),
            },
        );
        doc.push(
            Prim::Line {
                x1: 80000,
                y1: 80000,
                x2: 80000,
                y2: 520000,
                attrs: String::from_str("class=\"axis\""),
            },
        );
        doc.push(
            Prim::Text {
                x: 650000,
                y: 100000,
                attrs: String::from_str("class=\"axis-text\""),
                content: String::from_str("Bubble Size"),
            },
        );
        doc.push(
            Prim::Circle {
                cx: 670000,
                cy: 120000,
                r: min_r,
                attrs: String::from_str("fill=\"gray\" opacity=\"0.5\""),
            },
        );
        doc.push(
            Prim::Text {
                x: 695000,
                y: 125000,
                attrs: String::from_str("class=\"axis-text\" font-size=\"10px\""),
                content: fmt_milli_1dp(minsz),
            },
        );
        doc.push(
            Prim::Circle {
                cx: 670000,
                cy: 160000,
                r: max_r,
                attrs: String::from_str("fill=\"gray\" opacity=\"0.5\""),
            },
        );
        doc.push(
            Prim::Text {
                x: 710000,
                y: 165000,
                attrs: String::from_str("class=\"axis-text\" font-size=\"10px\""),
                content: fmt_milli_1dp(maxsz),
            },
        );
        doc.push(Prim::Raw { markup: String::from_str("</svg>") });
        let out = render(&doc);
        proof {
            assert forall|j: int| 0 <= j < m implies bubble_circle_ok(
                #[trigger] doc@[k + j],
                bvs[j],
                min_r as int,
                max_r as int,
                minx as int,
                maxx as int,
                miny as int,
                maxy as int,
                minsz as int,
                maxsz as int,
            ) by {
                assert(doc@[k + j] == dm[k + j]);
            }
            assert forall|j: int|
                0 <= j < m implies minx as int <= (#[trigger] bvs[j]).0 <= maxx as int && miny as int
                <= bvs[j].1 <= maxy as int && minsz as int <= bvs[j].2 <= maxsz as int by {
                assert((xs@[j] as int, ys@[j] as int, szs@[j] as int) == bvs[j]);
            }
            let ghost xseq = bvs.map_values(|t: (int, int, int)| t.0);
            let ghost yseq = bvs.map_values(|t: (int, int, int)| t.1);
            let ghost szseq = bvs.map_values(|t: (int, int, int)| t.2);
            assert(crate::charts::is_seq_min(xseq, minx as int)) by {
                let w = choose|w: int| 0 <= w < xs@.len() && xs@[w] == minx;
                assert(xseq[w] == bvs[w].0);
                assert((xs@[w] as int, ys@[w] as int, szs@[w] as int) == bvs[w]);
                assert forall|j: int| 0 <= j < xseq.len() implies minx as int
                    <= #[trigger] xseq[j] by {
                    assert(xseq[j] == bvs[j].0);
                }
            }
            assert(crate::charts::is_seq_max(xseq, maxx as int)) by {
                let w = choose|w: int| 0 <= w < xs@.len() && xs@[w] == maxx;
                assert(xseq[w] == bvs[w].0);
                assert((xs@[w] as int, ys@[w] as int, szs@[w] as int) == bvs[w]);
                assert forall|j: int| 0 <= j < xseq.len() implies #[trigger] xseq[j]
                    <= maxx as int by {
                    assert(xseq[j] == bvs[j].0);
                }
            }
            assert(crate::charts::is_seq_min(yseq, miny as int)) by {
                let w = choose|w: int| 0 <= w < ys@.len() && ys@[w] == miny;
                assert(yseq[w] == bvs[w].1);
                assert((xs@[w] as int, ys@[w] as int, szs@[w] as int) == bvs[w]);
                assert forall|j: int| 0 <= j < yseq.len() implies miny as int
                    <= #[trigger] yseq[j] by {
                    assert(yseq[j] == bvs[j].1);
                }
            }
            assert(crate::charts::is_seq_max(yseq, maxy as int)) by {
                let w = choose|w: int| 0 <= w < ys@.len() && ys@[w] == maxy;
                assert(yseq[w] == bvs[w].1);
                assert((xs@[w] as int, ys@[w] as int, szs@[w] as int) == bvs[w]);
                assert forall|j: int| 0 <= j < yseq.len() implies #[trigger] yseq[j]
                    <= maxy as int by {
                    assert(yseq[j] == bvs[j].1);
                }
            }
            assert(crate::charts::is_seq_min(szseq, minsz as int)) by {
                let w = choose|w: int| 0 <= w < szs@.len() && szs@[w] == minsz;
                assert(szseq[w] == bvs[w].2);
                assert((xs@[w] as int, ys@[w] as int, szs@[w] as int) == bvs[w]);
                assert forall|j: int| 0 <= j < szseq.len() implies minsz as int
                    <= #[trigger] szseq[j] by {
                    assert(szseq[j] == bvs[j].2);
                }
            }
            assert(crate::charts::is_seq_max(szseq, maxsz as int)) by {
                let w = choose|w: int| 0 <= w < szs@.len() && szs@[w] == maxsz;
                assert(szseq[w] == bvs[w].2);
                assert((xs@[w] as int, ys@[w] as int, szs@[w] as int) == bvs[w]);
                assert forall|j: int| 0 <= j < szseq.len() implies #[trigger] szseq[j]
                    <= maxsz as int by {
                    assert(szseq[j] == bvs[j].2);
                }
            }
            assert(bubble_doc_ok(
                bvs,
                eff_min_r(self.min_bubble_size as int),
                eff_max_r(self.min_bubble_size as int, self.max_bubble_size as int),
                minx as int,
                maxx as int,
                miny as int,
                maxy as int,
                minsz as int,
                maxsz as int,
                doc@,
                k as int,
            ));
        }
        out
    }
}

/// Normalizes one coordinate into a pixel span; a degenerate data range
/// maps everything onto the span's midpoint.
fn bubble_axis(v: i64, lo: i64, hi: i64, plo: i64, phi: i64) -> (r: i64)
    requires
        -2_000_000_000_000i64 <= lo <= v <= hi <= 2_000_000_000_000i64,
        0 <= plo <= 1_000_000,
        0 <= phi <= 1_000_000,
    ensures
        r == v2p(v as int, lo as int, hi as int, plo as int, phi as int),
        plo <= phi ==> plo <= r <= phi,
        phi <= plo ==> phi <= r <= plo,
{
    if hi <= lo {
        (plo + phi) / 2
    } else if plo <= phi {
        proof {
            let a = (v - lo) as int;
            let d = (hi - lo) as int;
            let w = (phi - plo) as int;
            assert(0 <= a * w <= 4_000_000_000_000int * 1_000_000) by (nonlinear_arith)
                requires
                    0 <= a <= 4_000_000_000_000int,
                    0 <= w <= 1_000_000,
            ;
            assert(a * w <= d * w) by (nonlinear_arith)
                requires
                    a <= d,
                    0 <= w,
            ;
            vstd::arithmetic::div_mod::lemma_div_pos_is_pos(a * w, d);
            vstd::arithmetic::div_mod::lemma_div_is_ordered(a * w, d * w, d);
            assert(d * w == w * d) by (nonlinear_arith);
            vstd::arithmetic::div_mod::lemma_div_multiples_vanish(w, d);
        }
        plo + ((((v - lo) as u64) * ((phi - plo) as u64)) / ((hi - lo) as u64)) as i64
    } else {
        proof {
            let a = (v - lo) as int;
            let d = (hi - lo) as int;
            let w = (plo - phi) as int;
            assert(0 <= a * w <= 4_000_000_000_000int * 1_000_000) by (nonlinear_arith)
                requires
                    0 <= a <= 4_000_000_000_000int,
                    0 <= w <= 1_000_000,
            ;
            assert(a * w <= d * w) by (nonlinear_arith)
                requires
                    a <= d,
                    0 <= w,
            ;
            vstd::arithmetic::div_mod::lemma_div_pos_is_pos(a * w, d);
            vstd::arithmetic::div_mod::lemma_div_is_ordered(a * w, d * w, d);
            assert(d * w == w * d) by (nonlinear_arith);
            vstd::arithmetic::div_mod::lemma_div_multiples_vanish(w, d);
        }
        plo - ((((v - lo) as u64) * ((plo - phi) as u64)) / ((hi - lo) as u64)) as i64
    }
}

impl Chart for BubbleChart {
    fn generate(&self, request: &GraphRequest) -> (svg: String) {
        BubbleChart::generate(self, request)
    }
}

} // verus!
