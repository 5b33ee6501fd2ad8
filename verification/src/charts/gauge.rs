//! Gauge layout.
//!
//! A single scalar is normalized into the gauge's `[min, max]` range and
//! clamped to `[0, 1]`.  The gauge is a half circle rendered as fifty fine
//! angular segments colored along a green-to-yellow-to-red ramp, with an
//! optional needle that rotates from the flat position toward zero degrees
//! in proportion to the normalized value: the midpoint value puts the
//! needle exactly at a right angle, bisecting the arc.

use vstd::prelude::*;
use crate::canvas::{doc_wf, is_line, is_text, render, render_doc, Prim};
use crate::charts::Chart;
use crate::models::{valid_value, GraphRequest, VALUE_LIMIT};
use crate::num::{milli_1dp, fmt_milli_1dp, fmt_milli_0dp, u64_str};
use crate::trig::{cos_mdeg, cos_spec, scale_by_micro, scale_micro, sin_mdeg, sin_spec};

verus! {

/// Gauge configuration: the value range and which adornments to draw.
pub struct GaugeChart {
    pub min_value: i64,
    pub max_value: i64,
    pub show_labels: bool,
    pub show_needle: bool,
}

impl Default for GaugeChart {
    /// A range of zero to one hundred units, with labels and needle.
    fn default() -> (r: Self)
        ensures
            r.min_value == 0,
            r.max_value == 100_000,
            r.show_labels,
            r.show_needle,
    {
        GaugeChart { min_value: 0, max_value: 100_000, show_labels: true, show_needle: true }
    }
}

/// A range bound forced into the engine's value limits.
pub open spec fn clamp_value(x: int) -> int {
    if x < -1_000_000_000_000 {
        -1_000_000_000_000
    } else if x > 1_000_000_000_000 {
        1_000_000_000_000
    } else {
        x
    }
}

/// The value's position in the range, scaled to millionths and clamped to
/// `[0, 1]`; a degenerate range normalizes to zero.
pub open spec fn gauge_norm(v: int, lo: int, hi: int) -> int {
    if hi <= lo {
        0
    } else if v <= lo {
        0
    } else if v >= hi {
        1_000_000
    } else {
        (v - lo) * 1_000_000 / (hi - lo)
    }
}

/// The needle angle in millidegrees: the flat 180-degree position for the
/// low end of the range, rotating to 0 for the high end.  The midpoint of
/// the range puts the needle at exactly 90 degrees.
pub open spec fn needle_mdeg(norm: int) -> int {
    180000 - norm * 180000 / 1_000_000
}

/// Normalizes a value into the gauge range.
pub fn gauge_norm_exec(v: i64, lo: i64, hi: i64) -> (r: i64)
    requires
        valid_value(v as int),
        valid_value(lo as int),
        valid_value(hi as int),
    ensures
        r == gauge_norm(v as int, lo as int, hi as int),
        0 <= r <= 1_000_000,
{
    if hi <= lo {
        0
    } else if v <= lo {
        0
    } else if v >= hi {
        1_000_000
    } else {
        proof {
            let a = (v - lo) as int;
            let d = (hi - lo) as int;
            assert(0 <= a * 1_000_000 <= 4_000_000_000_000_000_000int) by (nonlinear_arith)
                requires
                    0 <= a <= 4_000_000_000_000int,
            ;
            assert(a * 1_000_000 <= d * 1_000_000) by (nonlinear_arith)
                requires
                    a <= d,
            ;
            vstd::arithmetic::div_mod::lemma_div_pos_is_pos(a * 1_000_000, d);
            vstd::arithmetic::div_mod::lemma_div_is_ordered(a * 1_000_000, d * 1_000_000, d);
            vstd::arithmetic::div_mod::lemma_div_multiples_vanish(1_000_000, d);
            assert(d * 1_000_000 == 1_000_000 * d) by (nonlinear_arith);
        }
        ((((v - lo) as u64) * 1_000_000u64) / ((hi - lo) as u64)) as i64
    }
}

/// Computes the needle angle.  The midpoint bisects the arc exactly.
pub fn needle_mdeg_exec(norm: i64) -> (r: i64)
    requires
        0 <= norm <= 1_000_000,
    ensures
        r == needle_mdeg(norm as int),
        0 <= r <= 180000,
        norm == 500_000 ==> r == 90000,
        norm == 0 ==> r == 180000,
        norm == 1_000_000 ==> r == 0,
{
    proof {
        let m = norm as int;
        assert(0 <= m * 180000 <= 1_000_000int * 180000) by (nonlinear_arith)
            requires
                0 <= m <= 1_000_000,
        ;
        vstd::arithmetic::div_mod::lemma_div_pos_is_pos(m * 180000, 1_000_000);
        vstd::arithmetic::div_mod::lemma_div_is_ordered(
            m * 180000,
            1_000_000int * 180000,
            1_000_000,
        );
        vstd::arithmetic::div_mod::lemma_div_multiples_vanish(180000, 1_000_000);
        assert(1_000_000int * 180000 == 180000 * 1_000_000int) by (nonlinear_arith);
        if m == 500_000 {
            assert(m * 180000 == 90_000_000_000int) by (nonlinear_arith)
                requires
                    m == 500_000,
            ;
            assert(90_000_000_000int / 1_000_000int == 90000);
        }
        if m == 1_000_000 {
            assert(m * 180000 == 180000 * 1_000_000int) by (nonlinear_arith)
                requires
                    m == 1_000_000,
            ;
        }
        if m == 0 {
            assert(m * 180000 == 0) by (nonlinear_arith)
                requires
                    m == 0,
            ;
            assert((0int) / 1_000_000int == 0);
        }
    }
    180000 - ((norm as u64) * 180000u64 / 1_000_000u64) as i64
}

/// The ramp color at a normalized position in millionths: green through
/// yellow up to the midpoint, then yellow through red.
pub open spec fn ramp_color(t: int) -> Seq<char> {
    if t < 500_000 {
        "rgb("@ + crate::num::dec_str((255 * (t * 2) / 1_000_000) as nat) + ", 255, 0)"@
    } else {
        "rgb(255, "@ + crate::num::dec_str(
            (255 * (1_000_000 - (t - 500_000) * 2) / 1_000_000) as nat,
        ) + ", 0)"@
    }
}

impl GaugeChart {
    /// The arc segment color at a normalized ramp position.
    pub fn get_color_for_value(&self, t: i64) -> (r: String)
        requires
            0 <= t <= 1_000_000,
        ensures
            r@ == ramp_color(t as int),
    {
        proof {
            if t < 500_000 {
                vstd::arithmetic::div_mod::lemma_div_pos_is_pos(255 * ((t as int) * 2), 1_000_000);
                vstd::arithmetic::div_mod::lemma_div_is_ordered(
                    255 * ((t as int) * 2),
                    255int * 1_000_000,
                    1_000_000,
                );
                vstd::arithmetic::div_mod::lemma_div_multiples_vanish(255int, 1_000_000);
                assert(255int * 1_000_000 == 1_000_000 * 255int) by (nonlinear_arith);
            } else {
                vstd::arithmetic::div_mod::lemma_div_pos_is_pos(
                    255 * (1_000_000 - ((t as int) - 500_000) * 2),
                    1_000_000,
                );
                vstd::arithmetic::div_mod::lemma_div_is_ordered(
                    255 * (1_000_000 - ((t as int) - 500_000) * 2),
                    255int * 1_000_000,
                    1_000_000,
                );
                vstd::arithmetic::div_mod::lemma_div_multiples_vanish(255int, 1_000_000);
                assert(255int * 1_000_000 == 1_000_000 * 255int) by (nonlinear_arith);
            }
        }
        let comp: i64 = if t < 500_000 {
            255 * (t * 2) / 1_000_000
        } else {
            255 * (1_000_000 - (t - 500_000) * 2) / 1_000_000
        };
        let mut color = String::from_str(
            if t < 500_000 {
                "rgb("
            } else {
                "rgb(255, "
            },
        );
        let cs = u64_str(comp as u64);
        color.append(cs.as_str());
        color.append(
            if t < 500_000 {
                ", 255, 0)"
            } else {
                ", 0)"
            },
        );
        proof {
            assert(color@ =~= ramp_color(t as int));
        }
        color
    }
}

/// The needle line: from the gauge center toward the arc, at the needle
/// angle for the given normalized value.
pub open spec fn gauge_needle_ok(p: Prim, norm: int) -> bool {
    let a = needle_mdeg(norm);
    is_line(
        p,
        300000,
        350000,
        300000 + scale_micro(140000, cos_spec(a)),
        350000 + scale_micro(140000, sin_spec(a)),
        "class=\"gauge-needle\""@,
    )
}

/// A document that holds a rendered gauge for the given value and range:
/// somewhere in it stand the needle line at the normalized angle and the
/// value text.
pub open spec fn gauge_doc_ok(v: int, lo: int, hi: int, doc: Seq<Prim>, kn: int, kt: int) -> bool {
    &&& 0 <= kn < doc.len()
    &&& 0 <= kt < doc.len()
    &&& gauge_needle_ok(doc[kn], gauge_norm(v, lo, hi))
    &&& is_text(doc[kt], 300000, 400000, "class=\"gauge-value\""@, milli_1dp(v))
}

impl GaugeChart {
    /// Lays out a gauge for the first value of the request.  A request
    /// without values yields an empty drawing; otherwise the result
    /// renders a document holding the colored arc, the needle at the
    /// normalized angle, and the value text.
    pub fn generate(&self, request: &GraphRequest) -> (r: String)
        requires
            request.wf(),
        ensures
            crate::charts::flat_input(request).len() == 0 ==> r@ == Seq::<char>::empty(),
            crate::charts::flat_input(request).len() > 0 && self.show_needle ==> exists|
                doc: Seq<Prim>,
                kn: int,
                kt: int,
            |
                #[trigger] gauge_doc_ok(
                    crate::charts::flat_input(request)[0],
                    clamp_value(self.min_value as int),
                    clamp_value(self.max_value as int),
                    doc,
                    kn,
                    kt,
                ) && r@ == render_doc(doc),
    {
        let lo = if self.min_value < -VALUE_LIMIT {
            -VALUE_LIMIT
        } else if self.min_value > VALUE_LIMIT {
            VALUE_LIMIT
        } else {
            self.min_value
        };
        let hi = if self.max_value < -VALUE_LIMIT {
            -VALUE_LIMIT
        } else if self.max_value > VALUE_LIMIT {
            VALUE_LIMIT
        } else {
            self.max_value
        };
        let data = crate::charts::flat_values(request);
        if data.len() == 0 {
            return String::new();
        }
        let value = data[0];
        proof {
            assert(data@.map_values(|v: i64| v as int)[0] == data@[0] as int);
            assert(valid_value(value as int)) by {
                let m = crate::charts::flat_input(request);
                assert(m.len() == data@.len());
                assert(m[0] == data@[0] as int) by {
                    assert(m[0] == data@.map_values(|v: i64| v as int)[0]);
                }
                if request.series@.len() > 0 {
                    assert(m == request.series@[0].values());
                    assert(request.series@[0].wf());
                    assert(m[0] == request.series@[0].values()[0]);
                } else {
                    assert(m[0] == request.data@.map_values(|v: i64| v as int)[0]);
                    assert(m[0] == request.data@[0] as int);
                }
            }
        }
        let norm = gauge_norm_exec(value, lo, hi);
        let mut doc: Vec<Prim> = Vec::new();
        doc.push(
            Prim::Raw {
                markup: String::from_str(
                    "<svg width=\"600\" height=\"400\" xmlns=\"http://www.w3.org/2000/svg\">\n  <defs>\n    <style>\n      .gauge-arc { fill: none; stroke-width: 20; }\n      .gauge-needle { stroke: #333; stroke-width: 3; stroke-linecap: round; }\n      .gauge-center { fill: #333; }\n      .gauge-text { font-family: Arial, sans-serif; font-size: 14px; fill: #333; text-anchor: middle; }\n      .gauge-value { font-family: Arial, sans-serif; font-size: 24px; font-weight: bold; fill: #333; text-anchor: middle; }\n      .title { font-family: Arial, sans-serif; font-size: 16px; font-weight: bold; fill: #333; text-anchor: middle; }\n    </style>\n  </defs>\n  <rect width=\"100%\" height=\"100%\" fill=\"white\"/>",
                ),
            },
        );
        if let Some(title) = &request.title {
            doc.push(
                Prim::Text {
                    x: 300000,
                    y: 30000,
                    attrs: String::from_str("class=\"title\""),
                    content: title.clone(),
                },
            );
        }
        // The gray background arc behind the colored segments.
        doc.push(
            Prim::Path {
                d: String::from_str("M 150.0 350.0 A 150.0 150.0 0 0 1 450.0 350.0"),
                attrs: String::from_str("fill=\"none\" stroke=\"gray\""),
            },
        );
        // The colored arc: fifty segments along a green-yellow-red ramp.
        let mut i: i64 = 0;
        while i < 50
            invariant
                0 <= i <= 50,
                doc_wf(doc@),
            decreases 50 - i,
        {
            let a1 = 180000 - i * 3600;
            let a2 = 180000 - (i + 1) * 3600;
            let x1 = 300000 + scale_by_micro(150000, cos_mdeg(a1));
            let y1 = 350000 + scale_by_micro(150000, sin_mdeg(a1));
            let x2 = 300000 + scale_by_micro(150000, cos_mdeg(a2));
            let y2 = 350000 + scale_by_micro(150000, sin_mdeg(a2));
            // The ramp position of this segment, in millionths.
            proof {
                vstd::arithmetic::div_mod::lemma_div_pos_is_pos((i as int) * 1_000_000, 49);
                vstd::arithmetic::div_mod::lemma_div_is_ordered(
                    (i as int) * 1_000_000,
                    49int * 1_000_000,
                    49,
                );
                vstd::arithmetic::div_mod::lemma_div_multiples_vanish(1_000_000, 49);
            }
            let t: i64 = i * 1_000_000 / 49;
            let color = self.get_color_for_value(t);
            let mut d = String::from_str("M ");
            let c = fmt_milli_1dp(x1);
            d.append(c.as_str());
            d.append(" ");
            let c = fmt_milli_1dp(y1);
            d.append(c.as_str());
            d.append(" A 150.0 150.0 0 0 1 ");
            let c = fmt_milli_1dp(x2);
            d.append(c.as_str());
            d.append(" ");
            let c = fmt_milli_1dp(y2);
            d.append(c.as_str());
            let mut attrs = String::from_str("fill=\"none\" stroke=\"");
            attrs.append(color.as_str());
            attrs.append("\" stroke-width=\"20\"");
            doc.push(Prim::Path { d, attrs });
            i += 1;
        }
        // Tick labels around the arc.
        if self.show_labels {
            let mut tk: i64 = 0;
            while tk < 11
                invariant
                    0 <= tk <= 11,
                    valid_value(lo as int),
                    valid_value(hi as int),
                    doc_wf(doc@),
                decreases 11 - tk,
            {
                let ang = 180000 - tk * 18000;
                let lx = 300000 + scale_by_micro(180000, cos_mdeg(ang));
                let ly = 350000 + scale_by_micro(180000, sin_mdeg(ang));
                proof {
                    assert(0 <= ((hi - lo) as int) * (tk as int) <= 2_000_000_000_000int * 10
                        || (hi - lo) < 0) by (nonlinear_arith)
                        requires
                            -2_000_000_000_000int <= (hi - lo) as int <= 2_000_000_000_000int,
                            0 <= tk <= 10,
                    ;
                }
                let tv: i64 = if hi > lo {
                    proof {
                        vstd::arithmetic::div_mod::lemma_div_pos_is_pos(
                            ((hi - lo) as int) * (tk as int),
                            10,
                        );
                        vstd::arithmetic::div_mod::lemma_div_is_ordered(
                            ((hi - lo) as int) * (tk as int),
                            2_000_000_000_000int * 10,
                            10,
                        );
                    }
                    lo + ((((hi - lo) as u64) * (tk as u64)) / 10u64) as i64
                } else {
                    lo
                };
                doc.push(
                    Prim::Text {
                        x: lx,
                        y: ly + 5000,
                        attrs: String::from_str("class=\"gauge-text\""),
                        content: fmt_milli_0dp(tv),
                    },
                );
                tk += 1;
            }
        }
        // The needle.
        let ghost mut kn: int = 0;
        if self.show_needle {
            let a = needle_mdeg_exec(norm);
            let nx = 300000 + scale_by_micro(140000, cos_mdeg(a));
            let ny = 350000 + scale_by_micro(140000, sin_mdeg(a));
            proof {
                kn = doc@.len() as int;
            }
            doc.push(
                Prim::Line {
                    x1: 300000,
                    y1: 350000,
                    x2: nx,
                    y2: ny,
                    attrs: String::from_str("class=\"gauge-needle\""),
                },
            );
            doc.push(
                Prim::Circle {
                    cx: 300000,
                    cy: 350000,
                    r: 8000,
                    attrs: String::from_str("class=\"gauge-center\""),
                },
            );
            proof {
                assert(gauge_needle_ok(
                    doc@[kn],
                    gauge_norm(value as int, lo as int, hi as int),
                ));
            }
        }
        let ghost kt = doc@.len() as int;
        doc.push(
            Prim::Text {
                x: 300000,
                y: 400000,
                attrs: String::from_str("class=\"gauge-value\""),
                content: fmt_milli_1dp(value),
            },
        );
        if let Some(yl) = &request.y_label {
            doc.push(
                Prim::Text {
                    x: 300000,
                    y: 425000,
                    attrs: String::from_str("class=\"gauge-text\""),
                    content: yl.clone(),
                },
            );
        }
        doc.push(Prim::Raw { markup: String::from_str("</svg>") });
        let out = render(&doc);
        proof {
            if self.show_needle {
                assert(gauge_doc_ok(
                    crate::charts::flat_input(request)[0],
                    clamp_value(self.min_value as int),
                    clamp_value(self.max_value as int),
                    doc@,
                    kn,
                    kt,
                )) by {
                    assert(lo as int == clamp_value(self.min_value as int));
                    assert(hi as int == clamp_value(self.max_value as int));
                    assert(crate::charts::flat_input(request)[0] == value as int);
                    assert(doc@[kn] == doc@[kn]);
                }
            }
        }
        out
    }
}

impl Chart for GaugeChart {
    fn generate(&self, request: &GraphRequest) -> (svg: String) {
        GaugeChart::generate(self, request)
    }
}

} // verus!
