//! Concrete checks of the engine's guarantees: scaling, nice maxima,
//! pie shares, histogram binning, stacked heights, color priority, and
//! the gauge needle.

use chart_engine::charts::histogram::{bin_index, histogram_counts, HistogramChart};
use chart_engine::charts::pie::{cum_points, PieChart};
use chart_engine::charts::bar::BarChart;
use chart_engine::charts::gauge::{gauge_norm_exec, needle_mdeg_exec, GaugeChart};
use chart_engine::charts::heatmap::{ColorScale, HeatmapChart as HeatmapChartCfg};
use chart_engine::charts::stacked_bar::StackedBarChart;
use chart_engine::models::{DataPoint, GraphRequest, GraphType, Series};
use chart_engine::scale::{max_of, min_of, nice_max, pixel_to_value, value_to_pixel};
use chart_engine::themes::resolve_color;

fn base_request() -> GraphRequest {
    GraphRequest {
        graph_type: GraphType::Line,
        series: Vec::new(),
        data: Vec::new(),
        title: None,
        x_label: None,
        y_label: None,
        colors: None,
        theme: None,
        bins: None,
        show_density: None,
        cell_size: None,
        show_values: None,
    }
}

fn plain_series(values: &[i64]) -> Series {
    Series {
        name: Some("A".to_string()),
        data: values
            .iter()
            .map(|&v| DataPoint { value: v, label: None, color: None })
            .collect(),
        color: None,
    }
}

#[test]
fn test_value_to_pixel_monotonic_and_inverse() {
    // Endpoints are exact.
    assert_eq!(value_to_pixel(0, 0, 100_000, 0, 640_000), 0);
    assert_eq!(value_to_pixel(100_000, 0, 100_000, 0, 640_000), 640_000);
    // Monotonic in the value.
    let mut prev = i64::MIN;
    for v in [0, 10_000, 25_000, 50_000, 99_000, 100_000] {
        let p = value_to_pixel(v, 0, 100_000, 0, 640_000);
        assert!(p >= prev);
        prev = p;
    }
    // The inverse recovers the value within one pixel's worth.
    for v in [0, 12_345, 54_321, 100_000] {
        let p = value_to_pixel(v, 0, 100_000, 0, 640_000);
        let w = pixel_to_value(p, 0, 100_000, 0, 640_000);
        let tolerance = 100_000 / 640_000 + 1;
        assert!(w <= v && v - w <= tolerance);
    }
    // A downward pixel range reverses the order.
    let hi = value_to_pixel(100_000, 0, 100_000, 450_000, 50_000);
    let lo = value_to_pixel(0, 0, 100_000, 450_000, 50_000);
    assert_eq!(lo, 450_000);
    assert_eq!(hi, 50_000);
    // A degenerate range maps onto the midpoint.
    assert_eq!(value_to_pixel(7_000, 7_000, 7_000, 0, 640_000), 320_000);
}

#[test]
fn test_nice_max_grows_and_is_idempotent() {
    // Already-nice values stay put.
    assert_eq!(nice_max(30_000), 30_000);
    assert_eq!(nice_max(100_000), 100_000);
    // Others round up to the next clean increment of their magnitude.
    assert_eq!(nice_max(2_800), 3_000);
    assert_eq!(nice_max(95_000), 100_000);
    assert_eq!(nice_max(7), 7);
    for x in [1, 9, 10, 11, 2_800, 30_000, 99_999, 1_000_000_000_000] {
        let n = nice_max(x);
        assert!(n >= x);
        assert_eq!(nice_max(n), n);
    }
}

#[test]
fn test_pie_shares_sum_to_whole() {
    // Four equal values: boundaries at exact quarter turns, and four
    // labels of exactly a quarter each.
    let values: Vec<i64> = vec![1_000, 1_000, 1_000, 1_000];
    let bounds = cum_points(&values, 4_000, 360_000);
    assert_eq!(bounds, vec![0, 90_000, 180_000, 270_000, 360_000]);
    let perms = cum_points(&values, 4_000, 1_000);
    assert_eq!(perms, vec![0, 250, 500, 750, 1_000]);
    // Unequal values still close the circle exactly.
    let values: Vec<i64> = vec![1_000, 1_000, 1_000];
    let bounds = cum_points(&values, 3_000, 360_000);
    assert_eq!(*bounds.last().unwrap(), 360_000);
    let mut total = 0;
    for w in bounds.windows(2) {
        total += w[1] - w[0];
    }
    assert_eq!(total, 360_000);
}

#[test]
fn test_pie_chart_quarters() {
    let mut request = base_request();
    request.graph_type = GraphType::Pie;
    request.data = vec![1_000, 1_000, 1_000, 1_000];
    let chart = PieChart { is_donut: false };
    let svg = chart.generate(&request);
    assert_eq!(svg.matches("25.0%").count(), 4);
    assert_eq!(svg.matches("<path").count(), 4);
}

#[test]
fn test_histogram_counts_sum_to_input_size() {
    let data: Vec<i64> = (1..=12).map(|v| v * 1_000).collect();
    let counts = histogram_counts(&data, 4, 1_000, 12_000);
    assert_eq!(counts.len(), 4);
    assert_eq!(counts.iter().sum::<usize>(), 12);
    for &v in &data {
        let b = bin_index(v, 1_000, 12_000, 4);
        assert!(b < 4);
    }
    // The generated chart accepts the same request end to end.
    let mut request = base_request();
    request.graph_type = GraphType::Histogram;
    request.data = data;
    request.bins = Some(4);
    let chart = HistogramChart { bins: 4, show_density: false };
    let svg = chart.generate(&request);
    assert!(svg.contains("<svg"));
    assert!(svg.contains("histogram-bar"));
}

#[test]
fn test_stacked_heights_telescope() {
    // Two series, one category: segment tops are cumulative, so the stack
    // height is exactly the scaled clamped total.
    let mut request = base_request();
    request.graph_type = GraphType::StackedBar;
    request.series = vec![plain_series(&[10_000]), plain_series(&[20_000])];
    let chart = StackedBarChart { show_values: false, show_percentage: false };
    let svg = chart.generate(&request);
    // First segment: 10/30 of 480 pixels = 160, so its top sits at 380.
    assert!(svg.contains("y=\"380.0\""));
    assert!(svg.contains("height=\"160.0\""));
    // Second segment tops out the plot: 30/30 of 480 pixels.
    assert!(svg.contains("y=\"60.0\""));
    assert!(svg.contains("height=\"320.0\""));
    // A negative value clamps to zero and adds no height.
    let mut neg = base_request();
    neg.graph_type = GraphType::StackedBar;
    neg.series = vec![plain_series(&[10_000]), plain_series(&[-5_000])];
    let svg2 = chart.generate(&neg);
    assert!(svg2.contains("height=\"480.0\""));
    assert!(svg2.contains("height=\"0.0\""));
}

#[test]
fn test_color_resolution_priority() {
    let palette: Vec<String> = vec!["#aaa".to_string(), "#bbb".to_string()];
    let point = Some("#111".to_string());
    let series = Some("#222".to_string());
    // The point's own color wins over the series color.
    assert_eq!(resolve_color(&point, &series, &palette, 0), "#111");
    // Without a point color, the series color wins.
    assert_eq!(resolve_color(&None, &series, &palette, 0), "#222");
    // With neither, the palette entry at the series index modulo the
    // palette length is used.
    assert_eq!(resolve_color(&None, &None, &palette, 0), "#aaa");
    assert_eq!(resolve_color(&None, &None, &palette, 1), "#bbb");
    assert_eq!(resolve_color(&None, &None, &palette, 5), "#bbb");
}

#[test]
fn test_bar_chart_heights_reach_nice_max() {
    let mut request = base_request();
    request.graph_type = GraphType::Bar;
    request.series = vec![plain_series(&[10_000, 20_000, 30_000])];
    let chart = BarChart {};
    let svg = chart.generate(&request);
    // Exactly three bars, monotonically increasing heights, the tallest
    // reaching the plot's top margin exactly (30 == nice_max(30)).
    assert_eq!(svg.matches("<rect x=\"").count(), 3);
    assert!(svg.contains("height=\"133.3\""));
    assert!(svg.contains("height=\"266.7\""));
    assert!(svg.contains("height=\"400.0\""));
    assert!(svg.contains("y=\"50.0\""));
}

#[test]
fn test_gauge_needle_bisects_at_midpoint() {
    // value 50 of [0, 100]: the normalized position is exactly one half
    // and the needle angle is exactly 90 degrees.
    let norm = gauge_norm_exec(50_000, 0, 100_000);
    assert_eq!(norm, 500_000);
    assert_eq!(needle_mdeg_exec(norm), 90_000);
    // End to end: the needle line drops straight down from the center.
    let mut request = base_request();
    request.graph_type = GraphType::Gauge;
    request.data = vec![50_000];
    let chart = GaugeChart::default();
    let svg = chart.generate(&request);
    assert!(svg.contains("x1=\"300.0\" y1=\"350.0\" x2=\"300.0\" y2=\"490.0\""));
}

#[test]
fn test_candles_from_quadruples_and_synthesis() {
    let chart = chart_engine::charts::candlestick::CandlestickChart;
    // Explicit quadruples.
    let mut request = base_request();
    request.data = vec![1_000, 4_000, 500, 3_000, 2_000, 5_000, 1_500, 4_500];
    let candles = chart.parse_ohlc_data(&request);
    assert_eq!(candles.len(), 2);
    assert_eq!(
        (candles[0].open, candles[0].high, candles[0].low, candles[0].close),
        (1_000, 4_000, 500, 3_000)
    );
    // Synthesized from a series: fixed fractions of the base value.
    let mut synth = base_request();
    synth.series = vec![plain_series(&[100_000])];
    let candles = chart.parse_ohlc_data(&synth);
    assert_eq!(candles.len(), 1);
    assert_eq!(candles[0].open, 102_000);
    assert_eq!(candles[0].high, 110_000);
    assert_eq!(candles[0].low, 90_000);
    assert_eq!(candles[0].close, 97_000);
    // The rendered chart carries three primitives per candle.
    let svg = chart.generate(&request);
    assert_eq!(svg.matches("class=\"candlestick-wick\"").count(), 4);
    assert!(svg.contains("<svg"));
}

#[test]
fn test_bubble_items_and_radius_bounds() {
    let chart = chart_engine::charts::bubble::BubbleChart::default();
    // Triples from the flat data.
    let mut request = base_request();
    request.data = vec![1_000, 2_000, 3_000, 4_000, 5_000, 6_000];
    let items = chart.parse_bubble_data(&request);
    assert_eq!(items.len(), 2);
    assert_eq!((items[0].x, items[0].y, items[0].size), (1_000, 2_000, 3_000));
    // Synthesized from a series: index, value, half the magnitude plus ten.
    let mut synth = base_request();
    synth.series = vec![plain_series(&[-8_000])];
    let items = chart.parse_bubble_data(&synth);
    assert_eq!((items[0].x, items[0].y, items[0].size), (0, -8_000, 14_000));
    let svg = chart.generate(&request);
    assert!(svg.contains("class=\"bubble\""));
}

#[test]
fn test_donut_draws_ring_segments() {
    let mut request = base_request();
    request.graph_type = GraphType::Donut;
    request.data = vec![1_000, 3_000];
    let chart = PieChart { is_donut: true };
    let svg = chart.generate(&request);
    // Ring segments carry an inner arc at 0.6 of the outer radius.
    assert_eq!(svg.matches("A 108.0 108.0").count(), 2);
    assert_eq!(svg.matches("A 180.0 180.0").count(), 2);
}

#[test]
fn test_heatmap_and_gauge_colors() {
    let chart = HeatmapChartCfg { cell_size: 40_000, show_values: true, color_scale: ColorScale::Blues };
    // The extremes of the blue ramp.
    assert_eq!(chart.get_color(0, 0, 10_000), "rgb(255, 255, 255)");
    assert_eq!(chart.get_color(10_000, 0, 10_000), "rgb(0, 0, 255)");
    let custom = HeatmapChartCfg {
        cell_size: 40_000,
        show_values: true,
        color_scale: ColorScale::Custom(vec!["#111".to_string(), "#222".to_string()]),
    };
    assert_eq!(custom.get_color(0, 0, 10_000), "#111");
    assert_eq!(custom.get_color(10_000, 0, 10_000), "#222");
    // The gauge ramp is pure green at the start, yellow at the middle,
    // pure red at the end.
    let gauge = GaugeChart::default();
    assert_eq!(gauge.get_color_for_value(0), "rgb(0, 255, 0)");
    assert_eq!(gauge.get_color_for_value(500_000), "rgb(255, 255, 0)");
    assert_eq!(gauge.get_color_for_value(1_000_000), "rgb(255, 0, 0)");
}

#[test]
fn test_legend_swatch_uses_palette_fallback() {
    // A colorless named series gets the resolved palette entry, not black.
    let mut request = base_request();
    request.graph_type = GraphType::Bar;
    request.series = vec![
        plain_series(&[10_000, 20_000]),
        {
            let mut s = plain_series(&[5_000, 15_000]);
            s.name = Some("B".to_string());
            s
        },
    ];
    let chart = BarChart {};
    let svg = chart.generate(&request);
    // Second series' bars and its legend swatch share the default
    // palette's second entry.
    assert!(svg.contains("fill=\"#FFB3B3\""));
    assert!(!svg.contains("fill=\"#000000\""));
}

#[test]
fn test_y_tick_labels_drop_decimal_on_integral_values() {
    let mut request = base_request();
    request.graph_type = GraphType::Scatter;
    request.series = vec![plain_series(&[10_000, 20_000, 30_000])];
    let chart = chart_engine::charts::scatter::ScatterChart {};
    let svg = chart.generate(&request);
    // The top tick of the nice maximum 30 is labelled without a decimal
    // (the per-point value labels keep their one decimal).
    assert!(svg.contains(">30</text>"));
    // Category ticks are centered in their segments: the first of three
    // categories sits at about a sixth of the 640-pixel axis.
    assert!(svg.contains("x1=\"106.6\"") || svg.contains("x1=\"106.7\""));
}

#[test]
fn test_stacked_zero_totals_draw_empty_frame() {
    // All-negative values clamp to zero; the chart keeps a fixed default
    // scale and draws the frame with zero-height segments instead of
    // failing silently.
    let mut request = base_request();
    request.graph_type = GraphType::StackedBar;
    request.series = vec![plain_series(&[-5_000])];
    let chart = StackedBarChart { show_values: false, show_percentage: false };
    let svg = chart.generate(&request);
    assert!(svg.contains("<svg"));
    assert!(svg.contains("height=\"0.0\""));
}

#[test]
fn test_gauge_prefers_series_over_flat_data() {
    // A non-empty series list is authoritative: the gauge reads its
    // first point, not the flat data.
    let mut request = base_request();
    request.graph_type = GraphType::Gauge;
    request.data = vec![10_000];
    request.series = vec![plain_series(&[50_000])];
    let chart = GaugeChart::default();
    let svg = chart.generate(&request);
    assert!(svg.contains("x1=\"300.0\" y1=\"350.0\" x2=\"300.0\" y2=\"490.0\""));
}

#[test]
fn test_multi_line_flat_shorthand_and_flat_range() {
    // The flat data list works as the single-series shorthand, and a
    // flat value range draws the line on the plot's midline.
    let mut request = base_request();
    request.graph_type = GraphType::MultiLine;
    request.data = vec![7_000, 7_000, 7_000];
    let chart = chart_engine::charts::multi_line::MultiLineChart::default();
    let svg = chart.generate(&request);
    assert!(svg.contains("<svg"));
    // The midline of the 60..540 plot is y == 300.
    assert!(svg.contains("M 60.0 300.0"));
}

#[test]
fn test_min_max_of_lists() {
    let v: Vec<i64> = vec![5, -3, 12, 0];
    assert_eq!(max_of(&v), 12);
    assert_eq!(min_of(&v), -3);
}
