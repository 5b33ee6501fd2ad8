//! Shared SVG building blocks: the standard document frame, axis ticks,
//! value labels and the series legend.
//!
//! The standard frame is an 800x600 canvas with a plot group translated by
//! (80, 50); inside the group the X axis runs from 0 to 640 pixels at
//! y = 450 and the Y axis from 50 up to 450.  Primitive geometry is in
//! milli-pixels.

use vstd::prelude::*;
use crate::canvas::{
    count_circles,
    count_paths,
    count_rects,
    doc_wf,
    fill_attr,
    fill_attr_spec,
    is_line,
    is_text,
    is_rect,
    Prim,
};
use crate::models::{Series, MAX_POINTS};
use crate::num::{dec_str, milli_1dp, fmt_milli_1dp, u64_str};
use crate::utils::{format_number, format_number_spec};

verus! {

broadcast use {crate::canvas::lemma_counts_push, crate::canvas::lemma_counts_concat};

/// Attributes of an axis tick line.
pub open spec fn tick_line_attrs() -> Seq<char> {
    "stroke=\"black\" stroke-width=\"2\""@
}

/// Attributes of a background grid line.
pub open spec fn grid_line_attrs() -> Seq<char> {
    "stroke=\"#CCCCCC\" stroke-width=\"1\" stroke-dasharray=\"4\""@
}

/// Attributes of a right-anchored tick label.
pub open spec fn tick_text_attrs() -> Seq<char> {
    "text-anchor=\"end\" font-family=\"M PLUS 1p\" font-size=\"12\""@
}

/// Attributes of a centered label.
pub open spec fn center_text_attrs() -> Seq<char> {
    "text-anchor=\"middle\" font-family=\"M PLUS 1p\" font-size=\"12\""@
}

/// Attributes of a legend entry label.
pub open spec fn legend_text_attrs() -> Seq<char> {
    "font-family=\"M PLUS 1p\" font-size=\"12\""@
}

/// The markup of the standard document header: canvas, white background,
/// plot group, optional title and axis labels, and the two axis lines.
pub open spec fn svg_header_spec(
    title: Option<Seq<char>>,
    x_label: Option<Seq<char>>,
    y_label: Option<Seq<char>>,
) -> Seq<char> {
    let head =
        "<?xml version=\"1.0\" encoding=\"UTF-8\" standalone=\"no\"?>\n<svg width=\"800\" height=\"600\" xmlns=\"http://www.w3.org/2000/svg\">\n<rect width=\"800\" height=\"600\" fill=\"white\"/>\n<g transform=\"translate(80, 50)\">"@;
    let with_title = match title {
        Option::Some(t) =>
            "<text x=\"320\" y=\"30\" text-anchor=\"middle\" font-family=\"M PLUS 1p\" font-size=\"20\">"@
            + t + "</text>"@,
        Option::None => Seq::<char>::empty(),
    };
    let with_x = match x_label {
        Option::Some(t) =>
            "<text x=\"320\" y=\"520\" text-anchor=\"middle\" font-family=\"M PLUS 1p\" font-size=\"14\">"@
            + t + "</text>"@,
        Option::None => Seq::<char>::empty(),
    };
    let with_y = match y_label {
        Option::Some(t) =>
            "<text x=\"-280\" y=\"-50\" text-anchor=\"middle\" font-family=\"M PLUS 1p\" font-size=\"14\" transform=\"rotate(-90)\">"@
            + t + "</text>"@,
        Option::None => Seq::<char>::empty(),
    };
    let axes =
        "<line x1=\"0\" y1=\"450\" x2=\"640\" y2=\"450\" stroke=\"black\" stroke-width=\"2\"/>\n<line x1=\"0\" y1=\"50\" x2=\"0\" y2=\"450\" stroke=\"black\" stroke-width=\"2\"/>"@;
    head + with_title + with_x + with_y + axes
}

/// Builds the standard document header.
pub fn create_svg_header(
    title: Option<&str>,
    x_label: Option<&str>,
    y_label: Option<&str>,
) -> (r: String)
    ensures
        r@ == svg_header_spec(
            match title {
                Option::Some(t) => Option::Some(t@),
                Option::None => Option::None,
            },
            match x_label {
                Option::Some(t) => Option::Some(t@),
                Option::None => Option::None,
            },
            match y_label {
                Option::Some(t) => Option::Some(t@),
                Option::None => Option::None,
            },
        ),
{
    let mut s = String::from_str(
        "<?xml version=\"1.0\" encoding=\"UTF-8\" standalone=\"no\"?>\n<svg width=\"800\" height=\"600\" xmlns=\"http://www.w3.org/2000/svg\">\n<rect width=\"800\" height=\"600\" fill=\"white\"/>\n<g transform=\"translate(80, 50)\">",
    );
    if let Some(t) = title {
        s.append(
            "<text x=\"320\" y=\"30\" text-anchor=\"middle\" font-family=\"M PLUS 1p\" font-size=\"20\">",
        );
        s.append(t);
        s.append("</text>");
    }
    if let Some(t) = x_label {
        s.append(
            "<text x=\"320\" y=\"520\" text-anchor=\"middle\" font-family=\"M PLUS 1p\" font-size=\"14\">",
        );
        s.append(t);
        s.append("</text>");
    }
    if let Some(t) = y_label {
        s.append(
            "<text x=\"-280\" y=\"-50\" text-anchor=\"middle\" font-family=\"M PLUS 1p\" font-size=\"14\" transform=\"rotate(-90)\">",
        );
        s.append(t);
        s.append("</text>");
    }
    s.append(
        "<line x1=\"0\" y1=\"450\" x2=\"640\" y2=\"450\" stroke=\"black\" stroke-width=\"2\"/>\n<line x1=\"0\" y1=\"50\" x2=\"0\" y2=\"450\" stroke=\"black\" stroke-width=\"2\"/>",
    );
    proof {
        assert(s@ =~= svg_header_spec(
            match title {
                Option::Some(t) => Option::Some(t@),
                Option::None => Option::None,
            },
            match x_label {
                Option::Some(t) => Option::Some(t@),
                Option::None => Option::None,
            },
            match y_label {
                Option::Some(t) => Option::Some(t@),
                Option::None => Option::None,
            },
        ));
    }
    s
}

/// The markup that closes the standard document frame.
pub fn create_svg_footer() -> (r: &'static str)
    ensures
        r@ == "</g></svg>"@,
{
    "</g></svg>"
}

/// How many of the series carry a name (and so a legend row).
pub open spec fn named_count(series: Seq<Series>) -> int
    decreases series.len(),
{
    if series.len() == 0 {
        0
    } else {
        (if series[0].name is Some {
            1int
        } else {
            0int
        }) + named_count(series.drop_first())
    }
}

/// The color of a legend swatch: the series color, or the resolved
/// palette entry at the series' index.
pub open spec fn legend_color(s: Series, palette: Seq<Seq<char>>, idx: int) -> Seq<char> {
    match s.color {
        Option::Some(c) => c@,
        Option::None => palette[idx % palette.len() as int],
    }
}

/// The legend block for the series from index `idx` on, anchored at
/// `(x, y)`: one swatch-and-name row per named series, rows 25 pixels
/// apart; unnamed series contribute nothing but keep their palette index.
pub open spec fn legend_prims_ok(
    series: Seq<Series>,
    x: int,
    y: int,
    palette: Seq<Seq<char>>,
    idx: int,
    prims: Seq<Prim>,
) -> bool
    decreases series.len(),
{
    if series.len() == 0 {
        prims.len() == 0
    } else {
        match series[0].name {
            Option::Some(nm) => {
                &&& prims.len() >= 2
                &&& is_rect(
                    prims[0],
                    x,
                    y,
                    20000,
                    20000,
                    fill_attr_spec(legend_color(series[0], palette, idx)),
                )
                &&& is_text(prims[1], x + 25000, y + 15000, legend_text_attrs(), nm@)
                &&& legend_prims_ok(series.drop_first(), x, y + 25000, palette, idx + 1, prims.skip(2))
            },
            Option::None => legend_prims_ok(series.drop_first(), x, y, palette, idx + 1, prims),
        }
    }
}

fn create_legend_from(series: &Vec<Series>, palette: &Vec<String>, i: usize, x: i64, y: i64) -> (r:
    Vec<Prim>)
    requires
        i <= series@.len(),
        palette@.len() > 0,
        0 <= x <= 10_000_000,
        0 <= y,
        y + 25000 * (series@.len() - i) <= 100_000_000,
    ensures
        legend_prims_ok(
            series@.skip(i as int),
            x as int,
            y as int,
            palette@.map_values(|c: String| c@),
            i as int,
            r@,
        ),
        count_rects(r@) == named_count(series@.skip(i as int)),
        count_circles(r@) == 0,
        count_paths(r@) == 0,
        doc_wf(r@),
    decreases series@.len() - i,
{
    if i == series.len() {
        let r: Vec<Prim> = Vec::new();
        proof {
            assert(series@.skip(i as int).len() == 0);
        }
        r
    } else {
        let s = &series[i];
        proof {
            assert(series@.skip(i as int)[0] == series@[i as int]);
            assert(series@.skip(i as int).drop_first() =~= series@.skip(i as int + 1));
        }
        match &s.name {
            Some(nm) => {
                let color: &str = match &s.color {
                    Some(c) => c.as_str(),
                    None => palette[i % palette.len()].as_str(),
                };
                proof {
                    assert(color@ == legend_color(
                        series@[i as int],
                        palette@.map_values(|c: String| c@),
                        i as int,
                    ));
                }
                let mut r: Vec<Prim> = Vec::new();
                r.push(Prim::Rect { x, y, w: 20000, h: 20000, attrs: fill_attr(color) });
                r.push(
                    Prim::Text {
                        x: x + 25000,
                        y: y + 15000,
                        attrs: String::from_str(
                            "font-family=\"M PLUS 1p\" font-size=\"12\"",
                        ),
                        content: nm.clone(),
                    },
                );
                let mut rest = create_legend_from(series, palette, i + 1, x, y + 25000);
                let ghost rest0 = rest@;
                proof {
                    assert(r@.len() == 2);
                }
                r.append(&mut rest);
                proof {
                    assert(r@.skip(2) =~= rest0);
                    assert(legend_prims_ok(
                        series@.skip(i as int),
                        x as int,
                        y as int,
                        palette@.map_values(|c: String| c@),
                        i as int,
                        r@,
                    ));
                }
                r
            },
            None => create_legend_from(series, palette, i + 1, x, y),
        }
    }
}

/// The legend block: one swatch-and-name row per named series, stacked at
/// fixed row height from `(x, y)` down, colored from the given palette.
pub fn create_legend(series: &Vec<Series>, x: i64, y: i64, palette: &Vec<String>) -> (r: Vec<Prim>)
    requires
        series@.len() <= 1000,
        palette@.len() > 0,
        0 <= x <= 10_000_000,
        0 <= y <= 50_000_000,
    ensures
        legend_prims_ok(
            series@,
            x as int,
            y as int,
            palette@.map_values(|c: String| c@),
            0,
            r@,
        ),
        count_rects(r@) == named_count(series@),
        count_circles(r@) == 0,
        count_paths(r@) == 0,
        doc_wf(r@),
{
    let r = create_legend_from(series, palette, 0, x, y);
    proof {
        assert(series@.skip(0) =~= series@);
    }
    r
}

/// The Y-axis ticks, labels and grid lines of the standard frame: six rows
/// at 80-pixel spacing, labelled with even fractions of `max_value`.
pub fn generate_y_axis_ticks(max_value: i64) -> (r: Vec<Prim>)
    requires
        0 <= max_value <= 10_000_000_000_000i64,
    ensures
        doc_wf(r@),
        r@.len() == 18,
        count_rects(r@) == 0,
        count_circles(r@) == 0,
        count_paths(r@) == 0,
        forall|i: int|
            0 <= i < 6 ==> is_line(
                #[trigger] r@[3 * i],
                -5000,
                450000 - 80000 * i,
                0,
                450000 - 80000 * i,
                tick_line_attrs(),
            ),
        forall|i: int|
            0 <= i < 6 ==> is_text(
                #[trigger] r@[3 * i + 1],
                -10000,
                450000 - 80000 * i + 4000,
                tick_text_attrs(),
                format_number_spec((max_value / 5) * i),
            ),
        forall|i: int|
            0 <= i < 6 ==> is_line(
                #[trigger] r@[3 * i + 2],
                0,
                450000 - 80000 * i,
                640000,
                450000 - 80000 * i,
                grid_line_attrs(),
            ),
{
    let step = max_value / 5;
    let mut r: Vec<Prim> = Vec::new();
    let mut i: i64 = 0;
    while i <= 5
        invariant
            0 <= i <= 6,
            0 <= step <= 2_000_000_000_000i64,
            step == max_value / 5,
            doc_wf(r@),
            r@.len() == 3 * i,
            count_rects(r@) == 0,
            count_circles(r@) == 0,
            count_paths(r@) == 0,
            forall|k: int|
                0 <= k < i ==> is_line(
                    #[trigger] r@[3 * k],
                    -5000,
                    450000 - 80000 * k,
                    0,
                    450000 - 80000 * k,
                    tick_line_attrs(),
                ),
            forall|k: int|
                0 <= k < i ==> is_text(
                    #[trigger] r@[3 * k + 1],
                    -10000,
                    450000 - 80000 * k + 4000,
                    tick_text_attrs(),
                    format_number_spec((max_value / 5) * k),
                ),
            forall|k: int|
                0 <= k < i ==> is_line(
                    #[trigger] r@[3 * k + 2],
                    0,
                    450000 - 80000 * k,
                    640000,
                    450000 - 80000 * k,
                    grid_line_attrs(),
                ),
        decreases 6 - i,
    {
        proof {
            assert(0 <= (step as int) * (i as int) <= 10_000_000_000_000int) by (nonlinear_arith)
                requires
                    0 <= step <= 2_000_000_000_000int,
                    0 <= i <= 5,
            ;
        }
        let y = 450000 - 80000 * i;
        let label = format_number(step * i);
        r.push(
            Prim::Line {
                x1: -5000,
                y1: y,
                x2: 0,
                y2: y,
                attrs: String::from_str("stroke=\"black\" stroke-width=\"2\""),
            },
        );
        r.push(
            Prim::Text {
                x: -10000,
                y: y + 4000,
                attrs: String::from_str(
                    "text-anchor=\"end\" font-family=\"M PLUS 1p\" font-size=\"12\"",
                ),
                content: label,
            },
        );
        r.push(
            Prim::Line {
                x1: 0,
                y1: y,
                x2: 640000,
                y2: y,
                attrs: String::from_str(
                    "stroke=\"#CCCCCC\" stroke-width=\"1\" stroke-dasharray=\"4\"",
                ),
            },
        );
        i += 1;
    }
    r
}

/// One X-axis tick with its one-based index label.
pub open spec fn x_tick_ok(prims: Seq<Prim>, j: int, x: int, label: nat) -> bool {
    &&& is_line(prims[2 * j], x, 450000, x, 455000, tick_line_attrs())
    &&& is_text(prims[2 * j + 1], x, 470000, center_text_attrs(), dec_str(label))
}

/// Category ticks along the X axis: one per point, centered in its
/// segment at `(i + 1/2) * 640 / n` pixels, labelled with the one-based
/// index.
pub fn generate_x_axis_ticks(num_points: usize) -> (r: Vec<Prim>)
    requires
        1 <= num_points <= MAX_POINTS,
    ensures
        doc_wf(r@),
        r@.len() == 2 * num_points,
        count_rects(r@) == 0,
        count_circles(r@) == 0,
        count_paths(r@) == 0,
        forall|j: int|
            0 <= j < num_points ==> #[trigger] x_tick_ok(
                r@,
                j,
                j * (640000int / num_points as int) + (640000int / num_points as int) / 2,
                (j + 1) as nat,
            ),
{
    let seg = 640000i64 / (num_points as i64);
    let half = seg / 2;
    let mut r: Vec<Prim> = Vec::new();
    let mut i: usize = 0;
    while i < num_points
        invariant
            1 <= num_points <= MAX_POINTS,
            seg == 640000int / num_points as int,
            half == (640000int / num_points as int) / 2,
            0 <= seg <= 640000,
            0 <= half <= 320000,
            i <= num_points,
            doc_wf(r@),
            r@.len() == 2 * i,
            count_rects(r@) == 0,
            count_circles(r@) == 0,
            count_paths(r@) == 0,
            forall|j: int|
                0 <= j < i ==> #[trigger] x_tick_ok(
                    r@,
                    j,
                    j * (640000int / num_points as int) + (640000int / num_points as int) / 2,
                    (j + 1) as nat,
                ),
        decreases num_points - i,
    {
        proof {
            assert(0 <= (i as int) * (seg as int) <= 100_000 * 640000) by (nonlinear_arith)
                requires
                    0 <= seg <= 640000,
                    0 <= i <= 100_000,
            ;
        }
        let x = (i as i64) * seg + half;
        let ghost r0 = r@;
        r.push(
            Prim::Line {
                x1: x,
                y1: 450000,
                x2: x,
                y2: 455000,
                attrs: String::from_str("stroke=\"black\" stroke-width=\"2\""),
            },
        );
        r.push(
            Prim::Text {
                x,
                y: 470000,
                attrs: String::from_str(
                    "text-anchor=\"middle\" font-family=\"M PLUS 1p\" font-size=\"12\"",
                ),
                content: u64_str((i as u64) + 1),
            },
        );
        proof {
            assert forall|j: int| 0 <= j < i + 1 implies #[trigger] x_tick_ok(
                r@,
                j,
                j * (640000int / num_points as int) + (640000int / num_points as int) / 2,
                (j + 1) as nat,
            ) by {
                if j < i {
                    assert(x_tick_ok(
                        r0,
                        j,
                        j * (640000int / num_points as int) + (640000int / num_points as int) / 2,
                        (j + 1) as nat,
                    ));
                    assert(r@[2 * j] == r0[2 * j]);
                    assert(r@[2 * j + 1] == r0[2 * j + 1]);
                }
            }
        }
        i += 1;
    }
    r
}

/// A value label centered 5 pixels above a point.
pub fn generate_value_text(x: i64, y: i64, value: i64) -> (r: Prim)
    requires
        x > i64::MIN,
        y > i64::MIN + 5000,
        value > i64::MIN,
    ensures
        is_text(r, x as int, y - 5000, center_text_attrs(), milli_1dp(value as int)),
{
    Prim::Text {
        x,
        y: y - 5000,
        attrs: String::from_str("text-anchor=\"middle\" font-family=\"M PLUS 1p\" font-size=\"12\""),
        content: fmt_milli_1dp(value),
    }
}

} // verus!
