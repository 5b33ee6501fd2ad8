//! The per-chart-kind layout algorithms and their dispatcher.
//!
//! Each chart kind is a small strategy struct whose `generate` method turns
//! a request into a finished drawing.  [`create_chart`] selects the
//! strategy for a request's chart kind, as a closed sum over the thirteen
//! kinds.

pub mod area;
pub mod bar;
pub mod bubble;
pub mod candlestick;
pub mod gauge;
pub mod heatmap;
pub mod histogram;
pub mod line;
pub mod multi_line;
pub mod pie;
pub mod radar;
pub mod scatter;
pub mod stacked_bar;

use vstd::prelude::*;
use crate::models::{GraphRequest, GraphType, Series};

verus! {

/// A chart layout strategy: consumes a request, emits a drawing.
pub trait Chart {
    /// Lays the request out as SVG markup.
    fn generate(&self, request: &GraphRequest) -> (svg: String)
        requires
            request.wf(),
    ;
}

/// A layout strategy for some chart kind: the closed sum over the
/// thirteen kinds the dispatcher selects from.
pub enum AnyChart {
    Line(line::LineChart),
    Bar(bar::BarChart),
    Scatter(scatter::ScatterChart),
    Pie(pie::PieChart),
    Area(area::AreaChart),
    Radar(radar::RadarChart),
    Histogram(histogram::HistogramChart),
    Heatmap(heatmap::HeatmapChart),
    Candlestick(candlestick::CandlestickChart),
    Gauge(gauge::GaugeChart),
    Bubble(bubble::BubbleChart),
    StackedBar(stacked_bar::StackedBarChart),
    MultiLine(multi_line::MultiLineChart),
}

impl AnyChart {
    /// Lays the request out with the selected strategy.  Each variant
    /// carries its strategy's full postcondition through the dispatch.
    pub fn generate(&self, request: &GraphRequest) -> (svg: String)
        requires
            request.wf(),
        ensures
            self matches AnyChart::Line(_) ==> {
                &&& request.eff_values()[0].len() == 0 ==> svg@ == Seq::<char>::empty()
                &&& request.eff_values()[0].len() > 0 ==> exists|
                    vmin: int,
                    vmax: int,
                    doc: Seq<crate::canvas::Prim>,
                    k: int,
                |
                    #[trigger] line::line_doc_ok(request, vmin, vmax, doc, k)
                        && is_vals_min(request.eff_values(), vmin) && is_vals_max(
                        request.eff_values(),
                        vmax,
                    ) && svg@ == crate::canvas::render_doc(doc)
            },
            self matches AnyChart::Bar(_) ==> exists|n: int|
                {
                    &&& #[trigger] bar::is_bar_cats(bar::bar_values(request), n)
                    &&& (n == 0 ==> svg@ == Seq::<char>::empty())
                    &&& (n > 0 ==> exists|raw: int, doc: Seq<crate::canvas::Prim>, k: int|
                        #[trigger] bar::bar_doc_ok(request, n, bar::bar_scale(raw), doc, k)
                            && bar::is_bar_max(bar::bar_values(request), raw) && svg@
                            == crate::canvas::render_doc(doc))
                },
            self matches AnyChart::Scatter(_) ==> exists|n: int|
                {
                    &&& #[trigger] bar::is_bar_cats(request.eff_values(), n)
                    &&& (n == 0 ==> svg@ == Seq::<char>::empty())
                    &&& (n > 0 ==> exists|raw: int, doc: Seq<crate::canvas::Prim>, k: int|
                        #[trigger] scatter::scatter_doc_ok(request, n, bar::bar_scale(raw), doc, k) && is_vals_max(request.eff_values(), raw) && svg@
                            == crate::canvas::render_doc(doc))
                },
            self matches AnyChart::Pie(p) ==> {
                &&& !pie::pie_ok_input(request) ==> svg@ == Seq::<char>::empty()
                &&& pie::pie_ok_input(request) ==> exists|doc: Seq<crate::canvas::Prim>, k: int|
                    #[trigger] pie::pie_doc_ok(
                        flat_input(request),
                        sum_seq(flat_input(request)),
                        p.is_donut,
                        request.title is Some,
                        doc,
                        k,
                    ) && svg@ == crate::canvas::render_doc(doc)
            },
            self matches AnyChart::Area(_) ==> (request.eff_values()[0].len() > 0 ==> exists|
                amax: int,
            |
                #[trigger] is_vals_max(request.eff_values(), amax) && ((amax <= 0 && svg@
                    == Seq::<char>::empty()) || (amax > 0 && exists|
                    doc: Seq<crate::canvas::Prim>,
                    k: int,
                |
                    #[trigger] area::area_doc_ok(request, amax, doc, k) && svg@
                        == crate::canvas::render_doc(doc)))),
            self matches AnyChart::Radar(_) ==> exists|n: int|
                {
                    &&& #[trigger] bar::is_bar_cats(request.eff_values(), n)
                    &&& (n < 3 ==> svg@ == Seq::<char>::empty())
                    &&& (n >= 3 ==> exists|vmax: int|
                        {
                            &&& #[trigger] is_vals_max(request.eff_values(), vmax)
                            &&& (vmax <= 0 ==> svg@ == Seq::<char>::empty())
                            &&& (vmax > 0 ==> exists|doc: Seq<crate::canvas::Prim>, k: int|
                                #[trigger] radar::radar_doc_ok(
                                    request.eff_values(),
                                    vmax,
                                    n,
                                    doc,
                                    k,
                                ) && svg@ == crate::canvas::render_doc(doc))
                        })
                },
            self matches AnyChart::Histogram(h) ==> {
                &&& flat_input(request).len() == 0 ==> svg@ == Seq::<char>::empty()
                &&& flat_input(request).len() > 0 ==> exists|
                    doc: Seq<crate::canvas::Prim>,
                    k: int,
                    counts: Seq<usize>,
                    vmin: int,
                    vmax: int,
                    maxc: int,
                    scale_m: int,
                |
                    #[trigger] histogram::hist_doc_ok(
                        h.eff_bins(),
                        flat_input(request),
                        vmin,
                        vmax,
                        h.show_density,
                        maxc,
                        doc,
                        k,
                        counts,
                        scale_m,
                    ) && is_seq_min(flat_input(request), vmin) && is_seq_max(
                        flat_input(request),
                        vmax,
                    ) && svg@ == crate::canvas::render_doc(doc)
            },
            self matches AnyChart::Heatmap(h) ==> {
                &&& flat_input(request).len() == 0 ==> svg@ == Seq::<char>::empty()
                &&& flat_input(request).len() > 0 ==> exists|
                    g: int,
                    vmin: int,
                    vmax: int,
                    doc: Seq<crate::canvas::Prim>,
                    k: int,
                |
                    #[trigger] heatmap::heat_doc_ok(
                        flat_input(request),
                        vmin,
                        vmax,
                        h.color_scale,
                        g,
                        heatmap::eff_cell(h.cell_size as int),
                        doc,
                        k,
                    ) && is_seq_min(flat_input(request), vmin) && is_seq_max(
                        flat_input(request),
                        vmax,
                    ) && svg@ == crate::canvas::render_doc(doc)
            },
            self matches AnyChart::Candlestick(_) ==> {
                &&& candlestick::candle_vals(request).len() == 0 ==> svg@ == Seq::<char>::empty()
                &&& candlestick::candle_vals(request).len() > 0 ==> exists|
                    rmin: int,
                    rmax: int,
                    doc: Seq<crate::canvas::Prim>,
                    k: int,
                |
                    #[trigger] candlestick::candle_doc_ok(
                        candlestick::candle_vals(request),
                        rmin,
                        rmax,
                        doc,
                        k,
                    ) && svg@ == crate::canvas::render_doc(doc)
            },
            self matches AnyChart::Gauge(g) ==> {
                &&& flat_input(request).len() == 0 ==> svg@ == Seq::<char>::empty()
                &&& flat_input(request).len() > 0 && g.show_needle ==> exists|
                    doc: Seq<crate::canvas::Prim>,
                    kn: int,
                    kt: int,
                |
                    #[trigger] gauge::gauge_doc_ok(
                        flat_input(request)[0],
                        gauge::clamp_value(g.min_value as int),
                        gauge::clamp_value(g.max_value as int),
                        doc,
                        kn,
                        kt,
                    ) && svg@ == crate::canvas::render_doc(doc)
            },
            self matches AnyChart::Bubble(b) ==> {
                &&& bubble::bubble_vals(request).len() == 0 ==> svg@ == Seq::<char>::empty()
                &&& bubble::bubble_vals(request).len() > 0 ==> exists|
                    doc: Seq<crate::canvas::Prim>,
                    k: int,
                    minx: int,
                    maxx: int,
                    miny: int,
                    maxy: int,
                    minsz: int,
                    maxsz: int,
                |
                    #[trigger] bubble::bubble_doc_ok(
                        bubble::bubble_vals(request),
                        bubble::eff_min_r(b.min_bubble_size as int),
                        bubble::eff_max_r(b.min_bubble_size as int, b.max_bubble_size as int),
                        minx,
                        maxx,
                        miny,
                        maxy,
                        minsz,
                        maxsz,
                        doc,
                        k,
                    ) && svg@ == crate::canvas::render_doc(doc)
            },
            self matches AnyChart::StackedBar(_) ==> {
                &&& request.series@.len() == 0 ==> svg@ == Seq::<char>::empty()
                &&& request.series@.len() > 0 ==> exists|n_cat: int|
                    {
                        &&& #[trigger] stacked_bar::is_min_cat(request.series@, n_cat)
                        &&& (n_cat == 0 ==> svg@ == Seq::<char>::empty())
                        &&& (n_cat > 0 ==> exists|max_total: int|
                            {
                                &&& #[trigger] stacked_bar::is_max_total(
                                    request.series@,
                                    n_cat,
                                    max_total,
                                )
                                &&& exists|doc: Seq<crate::canvas::Prim>, k: int|
                                    #[trigger] stacked_bar::stacked_doc_ok(
                                        request.series@,
                                        req_palette(request),
                                        n_cat,
                                        max_total,
                                        doc,
                                        k,
                                    ) && svg@ == crate::canvas::render_doc(doc)
                            })
                    }
            },
            self matches AnyChart::MultiLine(m) ==> exists|maxlen: int|
                {
                    &&& #[trigger] multi_line::is_max_len(request.eff_values(), maxlen)
                    &&& (maxlen == 0 ==> svg@ == Seq::<char>::empty())
                    &&& (maxlen > 0 ==> exists|vmin: int, vmax: int|
                        #![trigger is_vals_min(request.eff_values(), vmin), is_vals_max(request.eff_values(), vmax)]
                        {
                            &&& is_vals_min(request.eff_values(), vmin)
                            &&& is_vals_max(request.eff_values(), vmax)
                            &&& exists|doc: Seq<crate::canvas::Prim>, k: int|
                                #[trigger] multi_line::ml_doc_ok(
                                    request.eff_values(),
                                    vmin,
                                    vmax,
                                    multi_line::ml_step(maxlen),
                                    m.smooth_lines,
                                    doc,
                                    k,
                                ) && svg@ == crate::canvas::render_doc(doc)
                        })
                },
    {
        match self {
            AnyChart::Line(c) => c.generate(request),
            AnyChart::Bar(c) => c.generate(request),
            AnyChart::Scatter(c) => c.generate(request),
            AnyChart::Pie(c) => c.generate(request),
            AnyChart::Area(c) => c.generate(request),
            AnyChart::Radar(c) => c.generate(request),
            AnyChart::Histogram(c) => c.generate(request),
            AnyChart::Heatmap(c) => c.generate(request),
            AnyChart::Candlestick(c) => c.generate(request),
            AnyChart::Gauge(c) => c.generate(request),
            AnyChart::Bubble(c) => c.generate(request),
            AnyChart::StackedBar(c) => c.generate(request),
            AnyChart::MultiLine(c) => c.generate(request),
        }
    }
}

/// Selects the layout strategy for a request's chart kind and carries the
/// chart-kind-specific configuration over from the request.
pub fn create_chart(request: &GraphRequest) -> (r: AnyChart)
    ensures
        request.graph_type == GraphType::Line ==> r is Line,
        request.graph_type == GraphType::Bar ==> r is Bar,
        request.graph_type == GraphType::Scatter ==> r is Scatter,
        request.graph_type == GraphType::Pie ==> (r matches AnyChart::Pie(p) && !p.is_donut),
        request.graph_type == GraphType::Donut ==> (r matches AnyChart::Pie(p) && p.is_donut),
        request.graph_type == GraphType::Area ==> r is Area,
        request.graph_type == GraphType::Radar ==> r is Radar,
        request.graph_type == GraphType::Histogram ==> (r matches AnyChart::Histogram(h) && h.bins
            == (if request.bins is Some {
            request.bins->0
        } else {
            10
        }) && h.show_density == (if request.show_density is Some {
            request.show_density->0
        } else {
            false
        })),
        request.graph_type == GraphType::Heatmap ==> (r matches AnyChart::Heatmap(h) && h.cell_size
            == (if request.cell_size is Some {
            request.cell_size->0
        } else {
            40000
        }) && h.show_values == (if request.show_values is Some {
            request.show_values->0
        } else {
            true
        })),
        request.graph_type == GraphType::Candlestick ==> r is Candlestick,
        request.graph_type == GraphType::Gauge ==> (r matches AnyChart::Gauge(g) && g.min_value
            == 0 && g.max_value == 100_000),
        request.graph_type == GraphType::Bubble ==> (r matches AnyChart::Bubble(b)
            && b.show_labels == (if request.show_values is Some {
            request.show_values->0
        } else {
            false
        })),
        request.graph_type == GraphType::StackedBar ==> (r matches AnyChart::StackedBar(s)
            && s.show_values == (if request.show_values is Some {
            request.show_values->0
        } else {
            false
        })),
        request.graph_type == GraphType::MultiLine ==> r is MultiLine,
{
    match request.graph_type {
        GraphType::Bar => AnyChart::Bar(bar::BarChart {  }),
        GraphType::Line => AnyChart::Line(line::LineChart {  }),
        GraphType::Scatter => AnyChart::Scatter(scatter::ScatterChart {  }),
        GraphType::Pie => AnyChart::Pie(pie::PieChart { is_donut: false }),
        GraphType::Donut => AnyChart::Pie(pie::PieChart { is_donut: true }),
        GraphType::Area => AnyChart::Area(area::AreaChart {  }),
        GraphType::Radar => AnyChart::Radar(radar::RadarChart {  }),
        GraphType::Histogram => {
            let mut chart = histogram::HistogramChart::default();
            if let Some(bins) = request.bins {
                chart.bins = bins;
            }
            if let Some(show_density) = request.show_density {
                chart.show_density = show_density;
            }
            AnyChart::Histogram(chart)
        },
        GraphType::Heatmap => {
            let mut chart = heatmap::HeatmapChart::default();
            if let Some(cell_size) = request.cell_size {
                chart.cell_size = cell_size;
            }
            if let Some(show_values) = request.show_values {
                chart.show_values = show_values;
            }
            AnyChart::Heatmap(chart)
        },
        GraphType::Candlestick => AnyChart::Candlestick(candlestick::CandlestickChart),
        GraphType::Gauge => AnyChart::Gauge(gauge::GaugeChart::default()),
        GraphType::Bubble => {
            let mut chart = bubble::BubbleChart::default();
            if let Some(show_labels) = request.show_values {
                chart.show_labels = show_labels;
            }
            AnyChart::Bubble(chart)
        },
        GraphType::StackedBar => {
            let mut chart = stacked_bar::StackedBarChart::default();
            if let Some(show_values) = request.show_values {
                chart.show_values = show_values;
            }
            AnyChart::StackedBar(chart)
        },
        GraphType::MultiLine => AnyChart::MultiLine(multi_line::MultiLineChart::default()),
    }
}

/// The values of one series, as a plain list.
pub fn values_of(s: &Series) -> (r: Vec<i64>)
    ensures
        r@.len() == s.values().len(),
        forall|i: int| 0 <= i < r@.len() ==> r@[i] == s.values()[i],
{
    let mut r: Vec<i64> = Vec::new();
    let mut i: usize = 0;
    while i < s.data.len()
        invariant
            i <= s.data@.len(),
            r@.len() == i,
            forall|k: int| 0 <= k < i ==> r@[k] == s.values()[k],
        decreases s.data@.len() - i,
    {
        r.push(s.data[i].value);
        i += 1;
    }
    r
}

/// The single distribution a flat-data chart plots: a non-empty series
/// list is authoritative and its first series is plotted; the flat data
/// list is the single-series shorthand.
pub open spec fn flat_input(request: &GraphRequest) -> Seq<int> {
    if request.series@.len() > 0 {
        request.series@[0].values()
    } else {
        request.data@.map_values(|v: i64| v as int)
    }
}

/// Collects the flat distribution as a plain list.
pub fn flat_values(request: &GraphRequest) -> (r: Vec<i64>)
    ensures
        r@.map_values(|v: i64| v as int) == flat_input(request),
        r@.len() == flat_input(request).len(),
        forall|i: int| 0 <= i < r@.len() ==> r@[i] as int == flat_input(request)[i],
{
    let r = if request.series.len() > 0 {
        let r = values_of(&request.series[0]);
        proof {
            assert(r@.map_values(|v: i64| v as int) =~= request.series@[0].values());
        }
        r
    } else {
        let mut r: Vec<i64> = Vec::new();
        let mut i: usize = 0;
        while i < request.data.len()
            invariant
                i <= request.data@.len(),
                r@ == request.data@.take(i as int),
            decreases request.data@.len() - i,
        {
            r.push(request.data[i]);
            proof {
                assert(request.data@.take(i as int + 1) =~= request.data@.take(i as int).push(
                    request.data@[i as int],
                ));
            }
            i += 1;
        }
        proof {
            assert(request.data@.take(request.data@.len() as int) =~= request.data@);
            assert(r@.map_values(|v: i64| v as int) =~= request.data@.map_values(
                |v: i64| v as int,
            ));
        }
        r
    };
    proof {
        assert(forall|i: int|
            0 <= i < r@.len() ==> r@.map_values(|v: i64| v as int)[i] == #[trigger] r@[i] as int);
    }
    r
}

/// The hard-coded palette of last resort.
pub open spec fn default_palette() -> Seq<Seq<char>> {
    seq!["#0000FF"@, "#FFB3B3"@, "#B3E0FF"@, "#FFE6B3"@, "#B3FFB3"@, "#E6B3FF"@, "#FFD9B3"@]
}

/// The palette a request draws from: its own color list when one is
/// given, otherwise the default palette.
pub open spec fn req_palette(request: &GraphRequest) -> Seq<Seq<char>> {
    match request.colors {
        Option::Some(cs) => if cs@.len() > 0 {
            cs@.map_values(|c: String| c@)
        } else {
            default_palette()
        },
        Option::None => default_palette(),
    }
}

/// Materializes the request's palette.
pub fn request_palette(request: &GraphRequest) -> (r: Vec<String>)
    ensures
        r@.map_values(|c: String| c@) =~= req_palette(request),
        r@.len() == req_palette(request).len(),
        r@.len() > 0,
{
    match &request.colors {
        Some(cs) if cs.len() > 0 => {
            let mut p: Vec<String> = Vec::new();
            let mut i: usize = 0;
            while i < cs.len()
                invariant
                    i <= cs@.len(),
                    p@.len() == i,
                    forall|j: int| 0 <= j < i ==> (#[trigger] p@[j])@ == cs@[j]@,
                decreases cs@.len() - i,
            {
                p.push(cs[i].clone());
                i += 1;
            }
            proof {
                assert(p@.map_values(|c: String| c@) =~= cs@.map_values(|c: String| c@));
            }
            p
        },
        _ => {
            let mut p: Vec<String> = Vec::new();
            p.push(String::from_str("#0000FF"));
            p.push(String::from_str("#FFB3B3"));
            p.push(String::from_str("#B3E0FF"));
            p.push(String::from_str("#FFE6B3"));
            p.push(String::from_str("#B3FFB3"));
            p.push(String::from_str("#E6B3FF"));
            p.push(String::from_str("#FFD9B3"));
            proof {
                assert(p@.map_values(|c: String| c@) =~= default_palette());
            }
            p
        },
    }
}

/// Wraps the flat data list as a single anonymous series, for charts
/// called without structured series.
pub fn data_as_series(data: &Vec<i64>, color: Option<String>) -> (r: Vec<Series>)
    ensures
        r@.len() == 1,
        r@[0].values() =~= data@.map_values(|v: i64| v as int),
        r@[0].name is None,
        r@[0].color == color,
        r@[0].data@.len() == data@.len(),
        forall|j: int|
            0 <= j < data@.len() ==> (#[trigger] r@[0].data@[j]).color is None
                && r@[0].data@[j].label is None,
{
    let mut points: Vec<crate::models::DataPoint> = Vec::new();
    let mut i: usize = 0;
    while i < data.len()
        invariant
            i <= data@.len(),
            points@.len() == i,
            forall|j: int|
                0 <= j < i ==> (#[trigger] points@[j]).value == data@[j] && points@[j].label
                    is None && points@[j].color is None,
        decreases data@.len() - i,
    {
        points.push(crate::models::DataPoint { value: data[i], label: None, color: None });
        i += 1;
    }
    let mut r: Vec<Series> = Vec::new();
    r.push(Series { name: None, data: points, color });
    proof {
        assert(r@[0].values() =~= data@.map_values(|v: i64| v as int));
    }
    r
}

/// `m` is the smallest value of the sequence.
pub open spec fn is_seq_min(s: Seq<int>, m: int) -> bool {
    &&& forall|i: int| 0 <= i < s.len() ==> m <= #[trigger] s[i]
    &&& exists|i: int| 0 <= i < s.len() && #[trigger] s[i] == m
}

/// `m` is the largest value of the sequence.
pub open spec fn is_seq_max(s: Seq<int>, m: int) -> bool {
    &&& forall|i: int| 0 <= i < s.len() ==> #[trigger] s[i] <= m
    &&& exists|i: int| 0 <= i < s.len() && #[trigger] s[i] == m
}

/// `m` is the largest of the plotted values.
pub open spec fn is_vals_max(vals: Seq<Seq<int>>, m: int) -> bool {
    &&& forall|s: int, i: int|
        0 <= s < vals.len() && 0 <= i < vals[s].len() ==> #[trigger] vals[s][i] <= m
    &&& exists|s: int, i: int|
        0 <= s < vals.len() && 0 <= i < vals[s].len() && #[trigger] vals[s][i] == m
}

/// `m` is the smallest of the plotted values.
pub open spec fn is_vals_min(vals: Seq<Seq<int>>, m: int) -> bool {
    &&& forall|s: int, i: int|
        0 <= s < vals.len() && 0 <= i < vals[s].len() ==> m <= #[trigger] vals[s][i]
    &&& exists|s: int, i: int|
        0 <= s < vals.len() && 0 <= i < vals[s].len() && #[trigger] vals[s][i] == m
}

/// The sum of a sequence of values.
pub open spec fn sum_seq(s: Seq<int>) -> int
    decreases s.len(),
{
    if s.len() == 0 {
        0
    } else {
        sum_seq(s.drop_last()) + s.last()
    }
}

/// Extending a prefix by one element adds that element to its sum.
pub proof fn lemma_sum_take_step(s: Seq<int>, i: int)
    requires
        0 <= i < s.len(),
    ensures
        sum_seq(s.take(i + 1)) == sum_seq(s.take(i)) + s[i],
{
    assert(s.take(i + 1).drop_last() =~= s.take(i));
    assert(s.take(i + 1).last() == s[i]);
}

/// A sum of non-negative values is non-negative.
pub proof fn lemma_sum_nonneg(s: Seq<int>)
    requires
        forall|j: int| 0 <= j < s.len() ==> 0 <= #[trigger] s[j],
    ensures
        0 <= sum_seq(s),
    decreases s.len(),
{
    if s.len() > 0 {
        assert(forall|j: int| 0 <= j < s.drop_last().len() ==> 0 <= #[trigger] s.drop_last()[j]);
        lemma_sum_nonneg(s.drop_last());
    }
}

/// For non-negative values, a prefix sum never exceeds the total.
pub proof fn lemma_sum_take_le(s: Seq<int>, i: int)
    requires
        0 <= i <= s.len(),
        forall|j: int| 0 <= j < s.len() ==> 0 <= #[trigger] s[j],
    ensures
        sum_seq(s.take(i)) <= sum_seq(s),
        0 <= sum_seq(s.take(i)),
    decreases s.len() - i,
{
    assert(forall|j: int| 0 <= j < s.take(i).len() ==> 0 <= #[trigger] s.take(i)[j]);
    lemma_sum_nonneg(s.take(i));
    if i == s.len() {
        assert(s.take(i) =~= s);
    } else {
        lemma_sum_take_step(s, i);
        lemma_sum_take_le(s, i + 1);
    }
}

/// The largest value across all series, or `i64::MIN` when no series holds
/// a point.
pub fn get_max_value(series: &Vec<Series>) -> (r: i64)
    ensures
        forall|s: int, i: int|
            0 <= s < series@.len() && 0 <= i < series@[s].values().len()
                ==> #[trigger] series@[s].values()[i] <= r,
        r == i64::MIN || exists|s: int, i: int|
            0 <= s < series@.len() && 0 <= i < series@[s].values().len()
                && #[trigger] series@[s].values()[i] == r,
{
    let mut r = i64::MIN;
    let mut s: usize = 0;
    while s < series.len()
        invariant
            s <= series@.len(),
            forall|q: int, i: int|
                0 <= q < s && 0 <= i < series@[q].values().len()
                    ==> #[trigger] series@[q].values()[i] <= r,
            r == i64::MIN || exists|q: int, i: int|
                0 <= q < series@.len() && 0 <= i < series@[q].values().len()
                    && #[trigger] series@[q].values()[i] == r,
        decreases series@.len() - s,
    {
        let ser = &series[s];
        let mut i: usize = 0;
        while i < ser.data.len()
            invariant
                s < series@.len(),
                *ser == series@[s as int],
                i <= ser.data@.len(),
                forall|q: int, j: int|
                    0 <= q < s && 0 <= j < series@[q].values().len()
                        ==> #[trigger] series@[q].values()[j] <= r,
                forall|j: int| 0 <= j < i ==> series@[s as int].values()[j] <= r,
                r == i64::MIN || exists|q: int, j: int|
                    0 <= q < series@.len() && 0 <= j < series@[q].values().len()
                        && #[trigger] series@[q].values()[j] == r,
            decreases ser.data@.len() - i,
        {
            let v = ser.data[i].value;
            if v > r {
                r = v;
                proof {
                    assert(series@[s as int].values()[i as int] == v);
                }
            }
            i += 1;
        }
        s += 1;
    }
    r
}

/// The smallest value across all series, or `i64::MAX` when no series
/// holds a point.
pub fn get_min_value(series: &Vec<Series>) -> (r: i64)
    ensures
        forall|s: int, i: int|
            0 <= s < series@.len() && 0 <= i < series@[s].values().len() ==> r
                <= #[trigger] series@[s].values()[i],
        r == i64::MAX || exists|s: int, i: int|
            0 <= s < series@.len() && 0 <= i < series@[s].values().len()
                && #[trigger] series@[s].values()[i] == r,
{
    let mut r = i64::MAX;
    let mut s: usize = 0;
    while s < series.len()
        invariant
            s <= series@.len(),
            forall|q: int, i: int|
                0 <= q < s && 0 <= i < series@[q].values().len() ==> r
                    <= #[trigger] series@[q].values()[i],
            r == i64::MAX || exists|q: int, i: int|
                0 <= q < series@.len() && 0 <= i < series@[q].values().len()
                    && #[trigger] series@[q].values()[i] == r,
        decreases series@.len() - s,
    {
        let ser = &series[s];
        let mut i: usize = 0;
        while i < ser.data.len()
            invariant
                s < series@.len(),
                *ser == series@[s as int],
                i <= ser.data@.len(),
                forall|q: int, j: int|
                    0 <= q < s && 0 <= j < series@[q].values().len() ==> r
                        <= #[trigger] series@[q].values()[j],
                forall|j: int| 0 <= j < i ==> r <= series@[s as int].values()[j],
                r == i64::MAX || exists|q: int, j: int|
                    0 <= q < series@.len() && 0 <= j < series@[q].values().len()
                        && #[trigger] series@[q].values()[j] == r,
            decreases ser.data@.len() - i,
        {
            let v = ser.data[i].value;
            if v < r {
                r = v;
                proof {
                    assert(series@[s as int].values()[i as int] == v);
                }
            }
            i += 1;
        }
        s += 1;
    }
    r
}

/// The number of aligned categories for chart kinds that align series by
/// index: the shortest series bounds it.
pub fn aligned_categories(series: &Vec<Series>) -> (r: usize)
    requires
        series@.len() > 0,
    ensures
        forall|s: int| 0 <= s < series@.len() ==> r <= (#[trigger] series@[s].values()).len(),
        exists|s: int|
            0 <= s < series@.len() && r == (#[trigger] series@[s].values()).len(),
{
    let mut r = series[0].data.len();
    let mut s: usize = 1;
    proof {
        assert(series@[0].values().len() == series@[0].data@.len());
    }
    while s < series.len()
        invariant
            1 <= s <= series@.len(),
            forall|q: int| 0 <= q < s ==> r <= (#[trigger] series@[q].values()).len(),
            exists|q: int| 0 <= q < series@.len() && r == (#[trigger] series@[q].values()).len(),
        decreases series@.len() - s,
    {
        if series[s].data.len() < r {
            r = series[s].data.len();
            proof {
                assert(series@[s as int].values().len() == series@[s as int].data@.len());
            }
        }
        s += 1;
    }
    r
}

} // verus!
