//! Heatmap layout.
//!
//! A flat value sequence is arranged row-major into a near-square grid:
//! the column count is the ceiling of the square root of the value count.
//! Cell colors follow a selectable color scale over the normalized value;
//! cell text switches to a light color when the normalized value passes
//! one half.

use vstd::prelude::*;
use crate::canvas::{count_rects, doc_wf, fill_attr_spec, is_rect, render, render_doc, Prim};
use crate::charts::{flat_input, flat_values, is_seq_max, is_seq_min, Chart};
use crate::models::{valid_value, GraphRequest, MAX_POINTS};
use crate::num::{fmt_milli_1dp, fmt_milli_2dp, u64_str};
use crate::scale::{max_of, min_of};

verus! {

broadcast use {crate::canvas::lemma_counts_push, crate::canvas::lemma_counts_concat};

/// A heatmap color scale: fixed ramps, or a user-supplied color list
/// indexed by normalized position.
pub enum ColorScale {
    Blues,
    Reds,
    Greens,
    Viridis,
    Custom(Vec<String>),
}

/// Heatmap configuration: cell size in milli-pixels, value labels, and
/// the color scale.
pub struct HeatmapChart {
    pub cell_size: i64,
    pub show_values: bool,
    pub color_scale: ColorScale,
}

impl Default for HeatmapChart {
    /// Forty-pixel cells, values shown, blue ramp.
    fn default() -> (r: Self)
        ensures
            r.cell_size == 40000,
            r.show_values,
            r.color_scale is Blues,
    {
        HeatmapChart { cell_size: 40000, show_values: true, color_scale: ColorScale::Blues }
    }
}

/// The normalized intensity of a value in its range, in 0 to 255,
/// truncating; a degenerate range normalizes to the middle.
pub open spec fn heat_t(v: int, vmin: int, vmax: int) -> int {
    if vmax > vmin {
        (v - vmin) * 255 / (vmax - vmin)
    } else {
        127
    }
}

/// The palette index a custom color list gives an intensity.
pub open spec fn custom_idx(t: int, len: int) -> int {
    let lc = if len > 100_000 {
        100_000
    } else {
        len
    };
    let idx = t * (lc - 1) / 255;
    if idx >= len {
        len - 1
    } else {
        idx
    }
}

/// The cell color an intensity gets under a color scale.
pub open spec fn heat_color(scale: ColorScale, t: int) -> Seq<char> {
    match scale {
        ColorScale::Blues => "rgb("@ + crate::num::dec_str((255 - t) as nat) + ", "@
            + crate::num::dec_str((255 - t) as nat) + ", 255)"@,
        ColorScale::Reds => "rgb(255, "@ + crate::num::dec_str((255 - t) as nat) + ", "@
            + crate::num::dec_str((255 - t) as nat) + ")"@,
        ColorScale::Greens => "rgb("@ + crate::num::dec_str((255 - t) as nat) + ", 255, "@
            + crate::num::dec_str((255 - t) as nat) + ")"@,
        ColorScale::Viridis => "rgb("@ + crate::num::dec_str(t as nat) + ", "@
            + crate::num::dec_str(t as nat) + ", 128)"@,
        ColorScale::Custom(colors) => if colors@.len() == 0 {
            "#888888"@
        } else {
            colors@[custom_idx(t, colors@.len() as int)]@
        },
    }
}

/// `g` is the ceiling of the square root of `n`.
pub open spec fn is_grid_cols(n: int, g: int) -> bool {
    &&& g >= 1
    &&& (g - 1) * (g - 1) < n <= g * g
}

/// The effective cell size: the configured one forced between one pixel
/// and two hundred pixels.
pub open spec fn eff_cell(c: int) -> int {
    if c < 1000 {
        1000
    } else if c > 200_000 {
        200_000
    } else {
        c
    }
}

/// One heatmap cell: value `i` in a grid of `g` columns, filled row-major
/// with cells of side `cell` from an 80-pixel margin, colored by the
/// scale at the value's normalized intensity.
pub open spec fn heat_cell_ok(
    p: Prim,
    v: int,
    vmin: int,
    vmax: int,
    scale: ColorScale,
    i: int,
    g: int,
    cell: int,
) -> bool {
    is_rect(
        p,
        80000 + (i % g) * cell,
        80000 + (i / g) * cell,
        cell,
        cell,
        fill_attr_spec(heat_color(scale, heat_t(v, vmin, vmax))) + " class=\"heatmap-cell\""@,
    )
}

/// A document that holds a rendered heatmap of `data`: the cells of every
/// value, row-major in a near-square grid, each colored by the scale at
/// its normalized intensity — and the cells (plus the ten steps of the
/// color-scale strip) are the only rectangles the document holds.
pub open spec fn heat_doc_ok(
    data: Seq<int>,
    vmin: int,
    vmax: int,
    scale: ColorScale,
    g: int,
    cell: int,
    doc: Seq<Prim>,
    k: int,
) -> bool {
    &&& 0 <= k
    &&& k + data.len() <= doc.len()
    &&& is_grid_cols(data.len() as int, g)
    &&& forall|i: int|
        0 <= i < data.len() ==> heat_cell_ok(#[trigger] doc[k + i], data[i], vmin, vmax, scale, i, g, cell)
    &&& count_rects(doc) == data.len() + 10
}

/// The ceiling of the square root: the smallest column count whose square
/// covers the value count.
pub fn grid_cols(n: usize) -> (g: usize)
    requires
        1 <= n <= MAX_POINTS,
    ensures
        is_grid_cols(n as int, g as int),
        g <= n,
{
    let mut g: usize = 1;
    loop
        invariant_except_break
            1 <= g <= 400,
            (g - 1) * (g - 1) < n,
            1 <= n <= MAX_POINTS,
        ensures
            1 <= g <= 400,
            (g - 1) * (g - 1) < n,
            n <= (g as int) * (g as int),
        decreases 400 - g,
    {
        proof {
            assert((g as int) * (g as int) <= 400 * 400) by (nonlinear_arith)
                requires
                    0 <= g <= 400,
            ;
        }
        let gg: u64 = (g as u64) * (g as u64);
        if gg >= (n as u64) {
            break ;
        }
        proof {
            assert(g + 1 <= 400) by (nonlinear_arith)
                requires
                    (g as int) * (g as int) < n,
                    n <= 100_000,
                    1 <= g,
            ;
        }
        g += 1;
    }
    proof {
        assert(g <= n) by (nonlinear_arith)
            requires
                (g as int - 1) * (g as int - 1) < n,
                n <= (g as int) * (g as int),
                1 <= g,
                1 <= n,
        ;
    }
    g
}

impl HeatmapChart {
    /// The color of a cell value within the distribution's range, under
    /// this chart's color scale.
    pub fn get_color(&self, v: i64, vmin: i64, vmax: i64) -> (r: String)
        requires
            valid_value(v as int),
            valid_value(vmin as int),
            valid_value(vmax as int),
            vmin <= v <= vmax,
        ensures
            r@ == heat_color(self.color_scale, heat_t(v as int, vmin as int, vmax as int)),
    {
        let t: i64 = if vmax > vmin {
            proof {
                assert(0 <= ((v - vmin) as int) * 255 <= 2_000_000_000_000int * 255)
                    by (nonlinear_arith)
                    requires
                        0 <= (v - vmin) as int <= 2_000_000_000_000int,
                ;
                vstd::arithmetic::div_mod::lemma_div_pos_is_pos(
                    ((v - vmin) as int) * 255,
                    (vmax - vmin) as int,
                );
                assert(((v - vmin) as int) * 255 <= ((vmax - vmin) as int) * 255)
                    by (nonlinear_arith)
                    requires
                        v <= vmax,
                        vmin <= v,
                ;
                vstd::arithmetic::div_mod::lemma_div_is_ordered(
                    ((v - vmin) as int) * 255,
                    ((vmax - vmin) as int) * 255,
                    (vmax - vmin) as int,
                );
                assert(((vmax - vmin) as int) * 255 == 255 * ((vmax - vmin) as int))
                    by (nonlinear_arith);
                vstd::arithmetic::div_mod::lemma_div_multiples_vanish(255, (vmax - vmin) as int);
            }
            ((((v - vmin) as u64) * 255u64) / ((vmax - vmin) as u64)) as i64
        } else {
            127
        };
        let anti = 255 - t;
        let av = u64_str(anti as u64);
        let tv = u64_str(t as u64);
        let mut color = String::new();
        match &self.color_scale {
            ColorScale::Blues => {
                color.append("rgb(");
                color.append(av.as_str());
                color.append(", ");
                color.append(av.as_str());
                color.append(", 255)");
            },
            ColorScale::Reds => {
                color.append("rgb(255, ");
                color.append(av.as_str());
                color.append(", ");
                color.append(av.as_str());
                color.append(")");
            },
            ColorScale::Greens => {
                color.append("rgb(");
                color.append(av.as_str());
                color.append(", 255, ");
                color.append(av.as_str());
                color.append(")");
            },
            ColorScale::Viridis => {
                // A coarse ramp from deep violet through teal to yellow.
                color.append("rgb(");
                color.append(tv.as_str());
                color.append(", ");
                color.append(tv.as_str());
                color.append(", 128)");
            },
            ColorScale::Custom(colors) => {
                if colors.len() == 0 {
                    color.append("#888888");
                } else {
                    let lc: u64 = if colors.len() > 100_000 {
                        100_000
                    } else {
                        colors.len() as u64
                    };
                    proof {
                        assert(0 <= (t as int) * (lc as int - 1) <= 255 * 100_000)
                            by (nonlinear_arith)
                            requires
                                0 <= t <= 255,
                                1 <= lc <= 100_000,
                        ;
                        vstd::arithmetic::div_mod::lemma_div_pos_is_pos(
                            (t as int) * (lc as int - 1),
                            255,
                        );
                        vstd::arithmetic::div_mod::lemma_div_is_ordered_by_denominator(
                            (t as int) * (lc as int - 1),
                            1,
                            255,
                        );
                        vstd::arithmetic::div_mod::lemma_div_basics_1(
                            (t as int) * (lc as int - 1),
                        );
                    }
                    let mut idx = (((t as u64) * (lc - 1)) / 255) as usize;
                    if idx >= colors.len() {
                        idx = colors.len() - 1;
                    }
                    color.append(colors[idx].as_str());
                }
            },
        }
        proof {
            assert(color@ =~= heat_color(
                self.color_scale,
                heat_t(v as int, vmin as int, vmax as int),
            ));
        }
        color
    }

    /// Lays out a heatmap of the request's flat data (or first series).
    /// An empty distribution yields an empty drawing; otherwise the
    /// result renders a document holding one cell per value, row-major in
    /// a near-square grid of clamped cell size.
    pub fn generate(&self, request: &GraphRequest) -> (r: String)
        requires
            request.wf(),
        ensures
            flat_input(request).len() == 0 ==> r@ == Seq::<char>::empty(),
            flat_input(request).len() > 0 ==> exists|
                g: int,
                vmin: int,
                vmax: int,
                doc: Seq<Prim>,
                k: int,
            |
                #[trigger] heat_doc_ok(
                    flat_input(request),
                    vmin,
                    vmax,
                    self.color_scale,
                    g,
                    eff_cell(self.cell_size as int),
                    doc,
                    k,
                ) && is_seq_min(flat_input(request), vmin) && is_seq_max(flat_input(request), vmax)
                    && r@ == render_doc(doc),
    {
        let data = flat_values(request);
        let n = data.len();
        if n == 0 {
            return String::new();
        }
        proof {
            assert(data@.map_values(|v: i64| v as int).len() == data@.len());
            assert forall|i: int| 0 <= i < data@.len() implies valid_value(
                #[trigger] data@[i] as int,
            ) by {
                let m = flat_input(request);
                assert(m[i] == data@[i] as int) by {
                    assert(m[i] == data@.map_values(|v: i64| v as int)[i]);
                }
                if request.series@.len() > 0 {
                    assert(m == request.series@[0].values());
                    assert(request.series@[0].wf());
                } else {
                    assert(m[i] == request.data@.map_values(|v: i64| v as int)[i]);
                    assert(m[i] == request.data@[i] as int);
                }
            }
        }
        let vmin = min_of(&data);
        let vmax = max_of(&data);
        let g = grid_cols(n);
        let cell = if self.cell_size < 1000 {
            1000
        } else if self.cell_size > 200_000 {
            200_000
        } else {
            self.cell_size
        };
        let mut doc: Vec<Prim> = Vec::new();
        doc.push(
            Prim::Raw {
                markup: String::from_str(
                    "<svg width=\"800\" height=\"600\" xmlns=\"http://www.w3.org/2000/svg\">\n  <defs>\n    <style>\n      .heatmap-cell { stroke: #fff; stroke-width: 1; }\n      .cell-text { font-family: Arial, sans-serif; font-size: 10px; text-anchor: middle; dominant-baseline: middle; }\n      .title { font-family: Arial, sans-serif; font-size: 16px; font-weight: bold; fill: #333; text-anchor: middle; }\n      .legend { font-family: Arial, sans-serif; font-size: 12px; fill: #333; }\n    </style>\n  </defs>",
                ),
            },
        );
        if let Some(title) = &request.title {
            doc.push(
                Prim::Text {
                    x: 400000,
                    y: 30000,
                    attrs: String::from_str("class=\"title\""),
                    content: title.clone(),
                },
            );
        }
        let ghost k = doc@.len();
        let mut i: usize = 0;
        while i < n
            invariant
                n == data@.len(),
                1 <= n <= MAX_POINTS,
                forall|j: int| 0 <= j < data@.len() ==> valid_value(#[trigger] data@[j] as int),
                forall|j: int| 0 <= j < data@.len() ==> vmin <= #[trigger] data@[j] <= vmax,
                valid_value(vmin as int),
                valid_value(vmax as int),
                vmin <= vmax,
                1 <= g <= n,
                1000 <= cell <= 200_000,
                i <= n,
                doc@.len() == k + i,
                count_rects(doc@) == i,
                doc_wf(doc@),
                forall|j: int|
                    0 <= j < i ==> heat_cell_ok(
                        #[trigger] doc@[k + j],
                        data@[j] as int,
                        vmin as int,
                        vmax as int,
                        self.color_scale,
                        j,
                        g as int,
                        cell as int,
                    ),
            decreases n - i,
        {
            let row = i / g;
            let col = i % g;
            proof {
                assert(0 <= (col as int) * (cell as int) <= 100_000int * 200_000)
                    by (nonlinear_arith)
                    requires
                        0 <= col <= 100_000,
                        0 <= cell <= 200_000,
                ;
                assert(0 <= (row as int) * (cell as int) <= 100_000int * 200_000)
                    by (nonlinear_arith)
                    requires
                        0 <= row <= 100_000,
                        0 <= cell <= 200_000,
                ;
            }
            let x = 80000 + (col as i64) * cell;
            let y = 80000 + (row as i64) * cell;
            let v = data[i];
            let color = self.get_color(v, vmin, vmax);
            let mut attrs = crate::canvas::fill_attr(color.as_str());
            attrs.append(" class=\"heatmap-cell\"");
            let ghost d0 = doc@;
            doc.push(Prim::Rect { x, y, w: cell, h: cell, attrs });
            proof {
                assert(attrs@ =~= fill_attr_spec(
                    heat_color(self.color_scale, heat_t(v as int, vmin as int, vmax as int)),
                ) + " class=\"heatmap-cell\""@);
                assert(heat_cell_ok(
                    doc@[k + i as int],
                    data@[i as int] as int,
                    vmin as int,
                    vmax as int,
                    self.color_scale,
                    i as int,
                    g as int,
                    cell as int,
                ));
                assert forall|j: int| 0 <= j < i + 1 implies heat_cell_ok(
                    #[trigger] doc@[k + j],
                    data@[j] as int,
                    vmin as int,
                    vmax as int,
                    self.color_scale,
                    j,
                    g as int,
                    cell as int,
                ) by {
                    if j < i {
                        assert(doc@[k + j] == d0[k + j]);
                        assert(heat_cell_ok(
                            d0[k + j],
                            data@[j] as int,
                            vmin as int,
                            vmax as int,
                            self.color_scale,
                            j,
                            g as int,
                            cell as int,
                        ));
                    }
                }
            }
            i += 1;
        }
        let ghost dm = doc@;
        // Cell value labels.
        if self.show_values && cell > 20000 {
            let mut i2: usize = 0;
            while i2 < n
                invariant
                    n == data@.len(),
                    1 <= g <= n <= MAX_POINTS,
                    forall|j: int| 0 <= j < data@.len() ==> valid_value(#[trigger] data@[j] as int),
                    1000 <= cell <= 200_000,
                    valid_value(vmin as int),
                    valid_value(vmax as int),
                    vmin <= vmax,
                    forall|j: int| 0 <= j < data@.len() ==> vmin <= #[trigger] data@[j] <= vmax,
                    i2 <= n,
                    doc@.len() >= dm.len(),
                    count_rects(doc@) == n,
                    doc_wf(doc@),
                    forall|j: int| 0 <= j < dm.len() ==> #[trigger] doc@[j] == dm[j],
                decreases n - i2,
            {
                let row = i2 / g;
                let col = i2 % g;
                proof {
                    assert(0 <= (col as int) * (cell as int) <= 100_000int * 200_000)
                        by (nonlinear_arith)
                        requires
                            0 <= col <= 100_000,
                            0 <= cell <= 200_000,
                    ;
                    assert(0 <= (row as int) * (cell as int) <= 100_000int * 200_000)
                        by (nonlinear_arith)
                        requires
                            0 <= row <= 100_000,
                            0 <= cell <= 200_000,
                    ;
                }
                let x = 80000 + (col as i64) * cell + cell / 2;
                let y = 80000 + (row as i64) * cell + cell / 2;
                // The label switches to a light fill on dark cells.
                let v2 = data[i2];
                let dark = if vmax > vmin {
                    proof {
                        assert(0 <= ((v2 - vmin) as int) * 2 <= 4_000_000_000_000int)
                            by (nonlinear_arith)
                            requires
                                0 <= (v2 - vmin) as int <= 2_000_000_000_000int,
                        ;
                    }
                    (v2 - vmin) * 2 > vmax - vmin
                } else {
                    false
                };
                let mut attrs = crate::canvas::fill_attr(
                    if dark {
                        "#fff"
                    } else {
                        "#000"
                    },
                );
                attrs.append(" class=\"cell-text\"");
                doc.push(Prim::Text { x, y, attrs, content: fmt_milli_1dp(v2) });
                i2 += 1;
            }
        }
        // The color-scale legend strip with its end labels.
        let mut st: i64 = 0;
        while st < 10
            invariant
                0 <= st <= 10,
                n == data@.len(),
                1 <= n <= MAX_POINTS,
                valid_value(vmin as int),
                valid_value(vmax as int),
                vmin <= vmax,
                doc@.len() >= dm.len(),
                count_rects(doc@) == n + st,
                doc_wf(doc@),
                forall|j: int| 0 <= j < dm.len() ==> #[trigger] doc@[j] == dm[j],
            decreases 10 - st,
        {
            proof {
                assert(0 <= ((vmax - vmin) as int) * (st as int) <= 4_000_000_000_000int * 9)
                    by (nonlinear_arith)
                    requires
                        0 <= (vmax - vmin) as int <= 4_000_000_000_000int,
                        0 <= st <= 9,
                ;
            }
            proof {
                let rng = (vmax - vmin) as int;
                assert(rng * (st as int) <= rng * 9) by (nonlinear_arith)
                    requires
                        0 <= rng,
                        0 <= st <= 9,
                ;
                vstd::arithmetic::div_mod::lemma_div_pos_is_pos(rng * (st as int), 9);
                vstd::arithmetic::div_mod::lemma_div_is_ordered(rng * (st as int), rng * 9, 9);
                assert(rng * 9 == 9 * rng) by (nonlinear_arith);
                vstd::arithmetic::div_mod::lemma_div_multiples_vanish(rng, 9);
            }
            let sv = vmin + ((((vmax - vmin) as u64) * (st as u64)) / 9u64) as i64;
            let color = self.get_color(sv, vmin, vmax);
            doc.push(
                Prim::Rect {
                    x: 80000 + st * 20000,
                    y: 530000,
                    w: 20000,
                    h: 20000,
                    attrs: crate::canvas::fill_attr(color.as_str()),
                },
            );
            st += 1;
        }
        doc.push(
            Prim::Text {
                x: 80000,
                y: 575000,
                attrs: String::from_str("class=\"legend\" text-anchor=\"start\""),
                content: fmt_milli_2dp(vmin),
            },
        );
        doc.push(
            Prim::Text {
                x: 280000,
                y: 560000,
                attrs: String::from_str("class=\"legend\" text-anchor=\"end\""),
                content: fmt_milli_2dp(vmax),
            },
        );
        doc.push(Prim::Raw { markup: String::from_str("</svg>") });
        let out = render(&doc);
        proof {
            let ghost m = flat_input(request);
            assert forall|j: int| 0 <= j < n implies heat_cell_ok(
                #[trigger] doc@[k + j],
                m[j],
                vmin as int,
                vmax as int,
                self.color_scale,
                j,
                g as int,
                eff_cell(self.cell_size as int),
            ) by {
                assert(doc@[k + j] == dm[k + j]);
                assert(m[j] == data@[j] as int) by {
                    assert(m[j] == data@.map_values(|v: i64| v as int)[j]);
                }
                assert(heat_cell_ok(
                    dm[k + j],
                    data@[j] as int,
                    vmin as int,
                    vmax as int,
                    self.color_scale,
                    j,
                    g as int,
                    cell as int,
                ));
            }
            assert(is_seq_min(m, vmin as int)) by {
                let w = choose|w: int| 0 <= w < data@.len() && data@[w] == vmin;
                assert(m[w] == data@[w] as int) by {
                    assert(m[w] == data@.map_values(|v: i64| v as int)[w]);
                }
            }
            assert(is_seq_max(m, vmax as int)) by {
                let w = choose|w: int| 0 <= w < data@.len() && data@[w] == vmax;
                assert(m[w] == data@[w] as int) by {
                    assert(m[w] == data@.map_values(|v: i64| v as int)[w]);
                }
            }
            assert(heat_doc_ok(
                m,
                vmin as int,
                vmax as int,
                self.color_scale,
                g as int,
                eff_cell(self.cell_size as int),
                doc@,
                k as int,
            ));
        }
        out
    }
}

impl Chart for HeatmapChart {
    fn generate(&self, request: &GraphRequest) -> (svg: String) {
        HeatmapChart::generate(self, request)
    }
}

} // verus!
