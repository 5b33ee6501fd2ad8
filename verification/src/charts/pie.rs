//! Pie and donut layout.
//!
//! The values of the first plotted series are re-normalized to fractions
//! of their own total.  Slices are laid out sequentially from the top of
//! the circle; slice boundaries are cumulative, so the per-slice angles
//! sum to exactly one full turn and the percentage labels to exactly one
//! hundred percent.  A donut additionally draws an inner arc at 0.6 of
//! the outer radius and closes each slice into a ring segment.

use vstd::prelude::*;
use crate::canvas::{count_paths, count_texts, doc_wf, is_text, render, render_doc, Prim};
use crate::charts::{flat_input, flat_values, lemma_sum_take_le, lemma_sum_take_step, sum_seq, Chart};
use crate::models::{GraphRequest, MAX_POINTS, VALUE_LIMIT};
use crate::num::{milli_1dp, tenths_str, fmt_milli_1dp, u64_str};
use crate::trig::{cos_mdeg, cos_spec, scale_by_micro, scale_micro, sin_mdeg, sin_spec};
use crate::utils::svg::center_text_attrs;

verus! {

broadcast use {crate::canvas::lemma_counts_push, crate::canvas::lemma_counts_concat};

/// Pie layout; `is_donut` selects the ring variant.
pub struct PieChart {
    pub is_donut: bool,
}

impl PieChart {
    /// A pie needs axes drawn no more than a donut does.
    pub fn needs_axes(&self) -> (r: bool)
        ensures
            !r,
    {
        false
    }
}

/// The boundary of slice `i`: the fraction of the total covered by the
/// first `i` values, scaled (by 360000 for angles, 1000 for permilles).
pub open spec fn cum_part(vals: Seq<int>, total: int, scale: int, i: int) -> int {
    scale * sum_seq(vals.take(i)) / total
}

/// Boundaries grow with the index (values are non-negative).
pub proof fn lemma_cum_monotone(vals: Seq<int>, total: int, scale: int, i: int)
    requires
        0 <= i < vals.len(),
        forall|j: int| 0 <= j < vals.len() ==> 0 <= #[trigger] vals[j],
        total > 0,
        scale >= 0,
    ensures
        cum_part(vals, total, scale, i) <= cum_part(vals, total, scale, i + 1),
{
    lemma_sum_take_step(vals, i);
    assert(scale * sum_seq(vals.take(i)) <= scale * sum_seq(vals.take(i + 1))) by (nonlinear_arith)
        requires
            sum_seq(vals.take(i)) <= sum_seq(vals.take(i + 1)),
            scale >= 0,
    ;
    vstd::arithmetic::div_mod::lemma_div_is_ordered(
        scale * sum_seq(vals.take(i)),
        scale * sum_seq(vals.take(i + 1)),
        total,
    );
}

/// Boundaries stay within `[0, scale]`; the first is 0 and the last is
/// exactly `scale`.
pub proof fn lemma_cum_bounds(vals: Seq<int>, total: int, scale: int, i: int)
    requires
        0 <= i <= vals.len(),
        forall|j: int| 0 <= j < vals.len() ==> 0 <= #[trigger] vals[j],
        total == sum_seq(vals),
        total > 0,
        scale >= 1,
    ensures
        0 <= cum_part(vals, total, scale, i) <= scale,
        i == 0 ==> cum_part(vals, total, scale, i) == 0,
        i == vals.len() ==> cum_part(vals, total, scale, i) == scale,
{
    lemma_sum_take_le(vals, i);
    let p = sum_seq(vals.take(i));
    assert(0 <= scale * p <= scale * total) by (nonlinear_arith)
        requires
            0 <= p <= total,
            scale >= 1,
    ;
    vstd::arithmetic::div_mod::lemma_div_pos_is_pos(scale * p, total);
    vstd::arithmetic::div_mod::lemma_div_is_ordered(scale * p, scale * total, total);
    assert(scale * total == total * scale) by (nonlinear_arith);
    vstd::arithmetic::div_mod::lemma_div_multiples_vanish(scale, total);
    if i == 0 {
        assert(vals.take(0) =~= Seq::<int>::empty());
        assert(scale * 0 == 0) by (nonlinear_arith);
        assert((0int) / total == 0) by {
            vstd::arithmetic::div_mod::lemma_div_multiples_vanish(0, total);
            assert(total * 0 == 0) by (nonlinear_arith);
        }
    }
    if i == vals.len() {
        assert(vals.take(i) =~= vals);
    }
}

/// Computes all slice boundaries at a given scale.
pub fn cum_points(values: &Vec<i64>, total: i64, scale: i64) -> (r: Vec<i64>)
    requires
        1 <= values@.len() <= MAX_POINTS,
        forall|i: int| 0 <= i < values@.len() ==> 0 <= #[trigger] values@[i] <= VALUE_LIMIT,
        0 < total <= 200_000_000_000_000_000i64,
        sum_seq(values@.map_values(|v: i64| v as int)) == total,
        1 <= scale <= 360000,
    ensures
        r@.len() == values@.len() + 1,
        forall|i: int|
            0 <= i <= values@.len() ==> #[trigger] r@[i] == cum_part(
                values@.map_values(|v: i64| v as int),
                total as int,
                scale as int,
                i,
            ),
        forall|i: int| 0 <= i <= values@.len() ==> 0 <= #[trigger] r@[i] <= scale,
{
    let ghost vals = values@.map_values(|v: i64| v as int);
    proof {
        assert(forall|j: int| 0 <= j < vals.len() ==> 0 <= #[trigger] vals[j]);
    }
    let mut r: Vec<i64> = Vec::new();
    let mut acc: i64 = 0;
    let mut i: usize = 0;
    proof {
        assert(vals.take(0) =~= Seq::<int>::empty());
    }
    while i <= values.len()
        invariant
            i <= values@.len() + 1,
            values@.len() <= MAX_POINTS,
            vals == values@.map_values(|v: i64| v as int),
            forall|j: int| 0 <= j < vals.len() ==> 0 <= #[trigger] vals[j],
            forall|j: int| 0 <= j < values@.len() ==> 0 <= #[trigger] values@[j] <= VALUE_LIMIT,
            0 < total <= 200_000_000_000_000_000i64,
            sum_seq(vals) == total,
            1 <= scale <= 360000,
            i <= values@.len() ==> acc == sum_seq(vals.take(i as int)),
            r@.len() == i,
            forall|j: int|
                0 <= j < i ==> #[trigger] r@[j] == cum_part(vals, total as int, scale as int, j),
            forall|j: int| 0 <= j < i ==> 0 <= #[trigger] r@[j] <= scale,
        decreases values@.len() + 1 - i,
    {
        proof {
            lemma_sum_take_le(vals, i as int);
            assert(0 <= acc <= total);
            assert(0 <= (scale as int) * (acc as int) <= (scale as int) * (total as int))
                by (nonlinear_arith)
                requires
                    0 <= acc <= total,
                    scale >= 1,
            ;
            vstd::arithmetic::div_mod::lemma_div_pos_is_pos(
                (scale as int) * (acc as int),
                total as int,
            );
            vstd::arithmetic::div_mod::lemma_div_is_ordered(
                (scale as int) * (acc as int),
                (scale as int) * (total as int),
                total as int,
            );
            assert((scale as int) * (total as int) == (total as int) * (scale as int))
                by (nonlinear_arith);
            vstd::arithmetic::div_mod::lemma_div_multiples_vanish(scale as int, total as int);
        }
        proof {
            assert(0 <= (scale as int) * (acc as int) <= 360000int * 200_000_000_000_000_000int)
                by (nonlinear_arith)
                requires
                    0 <= acc <= 200_000_000_000_000_000i64,
                    0 <= scale <= 360000,
            ;
        }
        let b = (((scale as u128) * (acc as u128)) / (total as u128)) as i64;
        r.push(b);
        if i < values.len() {
            proof {
                lemma_sum_take_step(vals, i as int);
                lemma_sum_take_le(vals, i as int + 1);
                assert(vals[i as int] == values@[i as int] as int);
            }
            acc = acc + values[i];
        }
        i += 1;
    }
    r
}

/// The absolute drawing angle of a slice boundary: slices start at the top
/// of the circle, 90 degrees counter-clockwise of the X axis.
pub open spec fn abs_angle(a: int) -> int {
    (a + 270000) % 360000
}

/// The X offset of a point on a circle of `radius` at boundary angle `a`.
pub open spec fn arc_x(radius: int, a: int) -> int {
    scale_micro(radius, cos_spec(abs_angle(a)))
}

/// The Y offset of a point on a circle of `radius` at boundary angle `a`.
pub open spec fn arc_y(radius: int, a: int) -> int {
    scale_micro(radius, sin_spec(abs_angle(a)))
}

/// The path of one slice between boundary angles `a1` and `a2`: an outer
/// arc with the large-arc flag set for slices wider than half a turn,
/// closed to the center (pie) or through an inner arc (donut).
pub open spec fn slice_path_spec(a1: int, a2: int, donut: bool) -> Seq<char> {
    let large = if a2 - a1 > 180000 {
        "1"@
    } else {
        "0"@
    };
    if donut {
        "M "@ + milli_1dp(arc_x(180000, a1)) + " "@ + milli_1dp(arc_y(180000, a1))
            + " A 180.0 180.0 0 "@ + large + " 1 "@ + milli_1dp(arc_x(180000, a2)) + " "@
            + milli_1dp(arc_y(180000, a2)) + " L "@ + milli_1dp(arc_x(108000, a2)) + " "@
            + milli_1dp(arc_y(108000, a2)) + " A 108.0 108.0 0 "@ + large + " 0 "@ + milli_1dp(
            arc_x(108000, a1),
        ) + " "@ + milli_1dp(arc_y(108000, a1)) + " Z"@
    } else {
        "M "@ + milli_1dp(arc_x(180000, a1)) + " "@ + milli_1dp(arc_y(180000, a1))
            + " A 180.0 180.0 0 "@ + large + " 1 "@ + milli_1dp(arc_x(180000, a2)) + " "@
            + milli_1dp(arc_y(180000, a2)) + " L 0 0 Z"@
    }
}

/// A point on a circle around the plot center.
fn arc_point(radius: i64, a: i64) -> (r: (i64, i64))
    requires
        0 <= radius <= 1_000_000,
        0 <= a <= 360000,
    ensures
        r.0 == arc_x(radius as int, a as int),
        r.1 == arc_y(radius as int, a as int),
        -1_000_000 <= r.0 <= 1_000_000,
        -1_000_000 <= r.1 <= 1_000_000,
{
    let ang = (a + 270000) % 360000;
    proof {
        vstd::arithmetic::div_mod::lemma_mod_pos_bound((a + 270000) as int, 360000);
    }
    let x = scale_by_micro(radius, cos_mdeg(ang));
    let y = scale_by_micro(radius, sin_mdeg(ang));
    (x, y)
}

/// Builds the path of one slice.
fn slice_path(a1: i64, a2: i64, donut: bool) -> (r: String)
    requires
        0 <= a1 <= a2 <= 360000,
    ensures
        r@ == slice_path_spec(a1 as int, a2 as int, donut),
{
    let (sx, sy) = arc_point(180000, a1);
    let (ex, ey) = arc_point(180000, a2);
    let large = if a2 - a1 > 180000 {
        "1"
    } else {
        "0"
    };
    let mut s = String::from_str("M ");
    let t = fmt_milli_1dp(sx);
    s.append(t.as_str());
    s.append(" ");
    let t = fmt_milli_1dp(sy);
    s.append(t.as_str());
    s.append(" A 180.0 180.0 0 ");
    s.append(large);
    s.append(" 1 ");
    let t = fmt_milli_1dp(ex);
    s.append(t.as_str());
    s.append(" ");
    let t = fmt_milli_1dp(ey);
    s.append(t.as_str());
    if donut {
        let (isx, isy) = arc_point(108000, a1);
        let (iex, iey) = arc_point(108000, a2);
        s.append(" L ");
        let t = fmt_milli_1dp(iex);
        s.append(t.as_str());
        s.append(" ");
        let t = fmt_milli_1dp(iey);
        s.append(t.as_str());
        s.append(" A 108.0 108.0 0 ");
        s.append(large);
        s.append(" 0 ");
        let t = fmt_milli_1dp(isx);
        s.append(t.as_str());
        s.append(" ");
        let t = fmt_milli_1dp(isy);
        s.append(t.as_str());
        s.append(" Z");
        proof {
            assert(large@ == if a2 - a1 > 180000 {
                "1"@
            } else {
                "0"@
            });
            assert(s@ =~= slice_path_spec(a1 as int, a2 as int, donut));
        }
    } else {
        s.append(" L 0 0 Z");
        proof {
            assert(large@ == if a2 - a1 > 180000 {
                "1"@
            } else {
                "0"@
            });
            assert(s@ =~= slice_path_spec(a1 as int, a2 as int, donut));
        }
    }
    s
}

/// One slice's percentage label, at the slice's mid-angle at 0.75 of the
/// radius, showing tenths of a percent.
pub open spec fn pie_label_ok(p: Prim, a1: int, a2: int, perm: int) -> bool {
    let mid = abs_angle((a1 + a2) / 2);
    is_text(
        p,
        scale_micro(135000, cos_spec(mid)),
        scale_micro(135000, sin_spec(mid)) + 4000,
        center_text_attrs(),
        tenths_str(perm as nat) + "%"@,
    )
}

/// A document that holds a rendered pie: for each value, the slice path
/// between its cumulative boundaries and a label carrying its exact share
/// in tenths of a percent — and the slices are the only paths, and the
/// labels (plus the optional title) the only texts, the document holds.
pub open spec fn pie_doc_ok(
    vals: Seq<int>,
    total: int,
    donut: bool,
    titled: bool,
    doc: Seq<Prim>,
    k: int,
) -> bool {
    &&& 0 <= k
    &&& k + 2 * vals.len() <= doc.len()
    &&& count_paths(doc) == vals.len()
    &&& count_texts(doc) == vals.len() + (if titled {
        1int
    } else {
        0int
    })
    &&& forall|i: int|
        0 <= i < vals.len() ==> ((#[trigger] doc[k + 2 * i]) matches Prim::Path { d, .. } && d@
            == slice_path_spec(
            cum_part(vals, total, 360000, i),
            cum_part(vals, total, 360000, i + 1),
            donut,
        ))
    &&& forall|i: int|
        0 <= i < vals.len() ==> pie_label_ok(
            #[trigger] doc[k + 2 * i + 1],
            cum_part(vals, total, 360000, i),
            cum_part(vals, total, 360000, i + 1),
            cum_part(vals, total, 1000, i + 1) - cum_part(vals, total, 1000, i),
        )
}

/// The inputs a pie accepts: at least one value, none negative, and a
/// positive total.
pub open spec fn pie_ok_input(request: &GraphRequest) -> bool {
    let vals = flat_input(request);
    &&& vals.len() > 0
    &&& forall|i: int| 0 <= i < vals.len() ==> 0 <= #[trigger] vals[i]
    &&& sum_seq(vals) > 0
}

/// The sum of adjacent differences of a boundary list.
pub open spec fn sum_diffs(b: Seq<int>) -> int
    decreases b.len(),
{
    if b.len() <= 1 {
        0
    } else {
        sum_diffs(b.drop_last()) + (b[b.len() - 1] - b[b.len() - 2])
    }
}

/// Adjacent differences telescope to last minus first.
pub proof fn lemma_sum_diffs_telescope(b: Seq<int>)
    requires
        b.len() >= 1,
    ensures
        sum_diffs(b) == b.last() - b[0],
    decreases b.len(),
{
    if b.len() > 1 {
        lemma_sum_diffs_telescope(b.drop_last());
    }
}

/// For any series of non-negative values with a positive total, the
/// per-slice angles — the differences of the cumulative boundaries —
/// sum to exactly 360 degrees.
pub proof fn lemma_pie_angles_sum(vals: Seq<int>, total: int, bounds: Seq<int>)
    requires
        vals.len() >= 1,
        forall|j: int| 0 <= j < vals.len() ==> 0 <= #[trigger] vals[j],
        total == sum_seq(vals),
        total > 0,
        bounds.len() == vals.len() + 1,
        forall|i: int|
            0 <= i <= vals.len() ==> #[trigger] bounds[i] == cum_part(vals, total, 360000, i),
    ensures
        sum_diffs(bounds) == 360000,
{
    lemma_cum_bounds(vals, total, 360000, 0);
    lemma_cum_bounds(vals, total, 360000, vals.len() as int);
    lemma_sum_diffs_telescope(bounds);
}

/// For any series of non-negative values with a positive total, the
/// percentage labels — the differences of the cumulative permilles —
/// sum to exactly 100 percent.
pub proof fn lemma_pie_percents_sum(vals: Seq<int>, total: int, perms: Seq<int>)
    requires
        vals.len() >= 1,
        forall|j: int| 0 <= j < vals.len() ==> 0 <= #[trigger] vals[j],
        total == sum_seq(vals),
        total > 0,
        perms.len() == vals.len() + 1,
        forall|i: int|
            0 <= i <= vals.len() ==> #[trigger] perms[i] == cum_part(vals, total, 1000, i),
    ensures
        sum_diffs(perms) == 1000,
{
    lemma_cum_bounds(vals, total, 1000, 0);
    lemma_cum_bounds(vals, total, 1000, vals.len() as int);
    lemma_sum_diffs_telescope(perms);
}

impl PieChart {
    /// Lays out the first plotted series as a pie (or donut).  A request
    /// without values, with a negative value, or with a zero total yields
    /// an empty drawing; otherwise the result renders a document whose
    /// slices stand at the cumulative boundaries of the values.
    #[verifier::rlimit(60)]
    pub fn generate(&self, request: &GraphRequest) -> (r: String)
        requires
            request.wf(),
        ensures
            !pie_ok_input(request) ==> r@ == Seq::<char>::empty(),
            pie_ok_input(request) ==> exists|doc: Seq<Prim>, k: int|
                #[trigger] pie_doc_ok(
                    flat_input(request),
                    sum_seq(flat_input(request)),
                    self.is_donut,
                    request.title is Some,
                    doc,
                    k,
                ) && r@ == render_doc(doc),
    {
        let ghost vals = flat_input(request);
        let values = flat_values(request);
        if values.len() == 0 {
            return String::new();
        }
        let mut acc: i64 = 0;
        let mut i: usize = 0;
        proof {
            assert(vals.take(0) =~= Seq::<int>::empty());
            assert forall|j: int| 0 <= j < vals.len() implies -VALUE_LIMIT <= #[trigger] vals[j]
                <= VALUE_LIMIT by {
                if request.series@.len() > 0 {
                } else {
                    assert(vals[j] == request.data@.map_values(|v: i64| v as int)[j]);
                    assert(vals[j] == request.data@[j] as int);
                }
            }
        }
        while i < values.len()
            invariant
                i <= values@.len(),
                values@.len() <= MAX_POINTS,
                vals == values@.map_values(|v: i64| v as int),
                vals == flat_input(request),
                vals.len() == values@.len(),
                forall|j: int| 0 <= j < vals.len() ==> -VALUE_LIMIT <= #[trigger] vals[j]
                    <= VALUE_LIMIT,
                forall|j: int| 0 <= j < i ==> 0 <= #[trigger] vals[j],
                acc == sum_seq(vals.take(i as int)),
                0 <= acc <= (i as int) * VALUE_LIMIT,
            decreases values@.len() - i,
        {
            let v = values[i];
            proof {
                assert(vals[i as int] == values@[i as int] as int);
            }
            if v < 0 {
                proof {
                    assert(flat_input(request)[i as int] < 0);
                    assert(0 <= i < flat_input(request).len());
                    assert(!(forall|j: int|
                        0 <= j < flat_input(request).len() ==> 0 <= #[trigger] flat_input(request)[j]));
                    assert(!pie_ok_input(request));
                }
                return String::new();
            }
            proof {
                lemma_sum_take_step(vals, i as int);
            }
            acc = acc + v;
            i += 1;
        }
        proof {
            assert(vals.take(vals.len() as int) =~= vals);
        }
        let total = acc;
        if total <= 0 {
            return String::new();
        }
        let bounds = cum_points(&values, total, 360000);
        let perms = cum_points(&values, total, 1000);
        let mut doc: Vec<Prim> = Vec::new();
        doc.push(
            Prim::Raw {
                markup: String::from_str(
                    "<?xml version=\"1.0\" encoding=\"UTF-8\" standalone=\"no\"?>\n<svg width=\"800\" height=\"600\" xmlns=\"http://www.w3.org/2000/svg\">\n<rect width=\"800\" height=\"600\" fill=\"white\"/>\n<g transform=\"translate(400, 300)\">",
                ),
            },
        );
        if let Some(title) = &request.title {
            doc.push(
                Prim::Text {
                    x: 0,
                    y: -250000,
                    attrs: String::from_str(
                        "text-anchor=\"middle\" font-family=\"M PLUS 1p\" font-size=\"20\"",
                    ),
                    content: title.clone(),
                },
            );
        }
        let ghost k = doc@.len();
        let n = values.len();
        let mut s: usize = 0;
        while s < n
            invariant
                request.wf(),
                n == values@.len(),
                1 <= n <= MAX_POINTS,
                vals == values@.map_values(|v: i64| v as int),
                forall|j: int| 0 <= j < vals.len() ==> 0 <= #[trigger] vals[j] <= VALUE_LIMIT,
                0 < total <= 200_000_000_000_000_000i64,
                sum_seq(vals) == total,
                bounds@.len() == n + 1,
                perms@.len() == n + 1,
                forall|j: int|
                    0 <= j <= n ==> #[trigger] bounds@[j] == cum_part(
                        vals,
                        total as int,
                        360000,
                        j,
                    ),
                forall|j: int| 0 <= j <= n ==> 0 <= #[trigger] bounds@[j] <= 360000,
                forall|j: int|
                    0 <= j <= n ==> #[trigger] perms@[j] == cum_part(vals, total as int, 1000, j),
                forall|j: int| 0 <= j <= n ==> 0 <= #[trigger] perms@[j] <= 1000,
                s <= n,
                request.series@.len() > 0 ==> n == request.series@[0].data@.len(),
                doc@.len() == k + 2 * s,
                count_paths(doc@) == s,
                count_texts(doc@) == s + (if request.title is Some {
                    1int
                } else {
                    0int
                }),
                k >= 0,
                doc_wf(doc@),
                forall|j: int|
                    0 <= j < s ==> ((#[trigger] doc@[k + 2 * j]) matches Prim::Path { d, .. } && d@
                        == slice_path_spec(
                        cum_part(vals, total as int, 360000, j),
                        cum_part(vals, total as int, 360000, j + 1),
                        self.is_donut,
                    )),
                forall|j: int|
                    0 <= j < s ==> pie_label_ok(
                        #[trigger] doc@[k + 2 * j + 1],
                        cum_part(vals, total as int, 360000, j),
                        cum_part(vals, total as int, 360000, j + 1),
                        cum_part(vals, total as int, 1000, j + 1) - cum_part(
                            vals,
                            total as int,
                            1000,
                            j,
                        ),
                    ),
            decreases n - s,
        {
            let a1 = bounds[s];
            let a2 = bounds[s + 1];
            let p1 = perms[s];
            let p2 = perms[s + 1];
            proof {
                lemma_cum_monotone(vals, total as int, 360000, s as int);
                lemma_cum_monotone(vals, total as int, 1000, s as int);
            }
            let color: &str = {
                let ds = if request.series.len() > 0 {
                    match &request.series[0].data[s].color {
                        Some(c) => Some(c.as_str()),
                        None => None,
                    }
                } else {
                    None
                };
                match ds {
                    Some(c) => c,
                    None => match &request.colors {
                        Some(cs) if cs.len() > 0 => cs[s % cs.len()].as_str(),
                        _ => match s % 7 {
                            0 => "#0000FF",
                            1 => "#FFB3B3",
                            2 => "#B3E0FF",
                            3 => "#FFE6B3",
                            4 => "#B3FFB3",
                            5 => "#E6B3FF",
                            _ => "#FFD9B3",
                        },
                    },
                }
            };
            let d = slice_path(a1, a2, self.is_donut);
            let ghost d0 = doc@;
            doc.push(Prim::Path { d, attrs: crate::canvas::fill_attr(color) });
            let mid = (a1 + a2) / 2;
            let (lx, ly) = arc_point(135000, mid);
            let perm = p2 - p1;
            let mut label = crate::num::u64_str((perm / 10) as u64);
            proof {
                reveal_strlit(".");
                reveal_strlit("%");
            }
            label.append(".");
            let digit: u64 = (perm % 10) as u64;
            let frac = crate::num::u64_str(digit);
            label.append(frac.as_str());
            label.append("%");
            proof {
                assert(label@ =~= tenths_str((perm as nat)) + "%"@);
            }
            doc.push(
                Prim::Text {
                    x: lx,
                    y: ly + 4000,
                    attrs: String::from_str(
                        "text-anchor=\"middle\" font-family=\"M PLUS 1p\" font-size=\"12\"",
                    ),
                    content: label,
                },
            );
            proof {
                assert forall|j: int| 0 <= j < s + 1 implies ((#[trigger] doc@[k + 2 * j]) matches
                    Prim::Path { d, .. } && d@ == slice_path_spec(
                    cum_part(vals, total as int, 360000, j),
                    cum_part(vals, total as int, 360000, j + 1),
                    self.is_donut,
                )) by {
                    if j < s {
                        assert(doc@[k + 2 * j] == d0[k + 2 * j]);
                    }
                }
                assert forall|j: int| 0 <= j < s + 1 implies pie_label_ok(
                    #[trigger] doc@[k + 2 * j + 1],
                    cum_part(vals, total as int, 360000, j),
                    cum_part(vals, total as int, 360000, j + 1),
                    cum_part(vals, total as int, 1000, j + 1) - cum_part(
                        vals,
                        total as int,
                        1000,
                        j,
                    ),
                ) by {
                    if j < s {
                        assert(doc@[k + 2 * j + 1] == d0[k + 2 * j + 1]);
                    }
                }
            }
            s += 1;
        }
        let ghost dmarks = doc@;
        doc.push(Prim::Raw { markup: String::from_str("</g></svg>") });
        let out = render(&doc);
        proof {
            assert(forall|j: int| 0 <= j < dmarks.len() ==> doc@[j] == dmarks[j]);
            assert(pie_doc_ok(
                vals,
                total as int,
                self.is_donut,
                request.title is Some,
                doc@,
                k as int,
            ));
        }
        out
    }
}

impl Chart for PieChart {
    fn generate(&self, request: &GraphRequest) -> (svg: String) {
        PieChart::generate(self, request)
    }
}

} // verus!
