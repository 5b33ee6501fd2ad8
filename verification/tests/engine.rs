//! End-to-end checks: every chart kind renders a well-formed drawing.

use chart_engine::charts::{create_chart, AnyChart};
use chart_engine::models::{DataPoint, GraphRequest, GraphType, Series};
use chart_engine::themes::ThemeManager;

fn point(value: i64, label: Option<&str>) -> DataPoint {
    DataPoint {
        value,
        label: label.map(|s| s.to_string()),
        color: None,
    }
}

fn series(name: &str, values: &[i64]) -> Series {
    Series {
        name: Some(name.to_string()),
        data: values.iter().map(|&v| point(v, None)).collect(),
        color: None,
    }
}

fn base_request() -> GraphRequest {
    GraphRequest {
        graph_type: GraphType::Line,
        series: Vec::new(),
        data: Vec::new(),
        title: None,
        x_label: None,
        y_label: None,
        colors: None,
        theme: None,
        bins: None,
        show_density: None,
        cell_size: None,
        show_values: None,
    }
}

#[test]
fn test_chart_generation() {
    let test_data: Vec<i64> = vec![10_000, 20_000, 30_000, 25_000, 15_000];
    let test_labels = ["A", "B", "C", "D", "E"];

    let mk = |name: &str, values: &[i64]| Series {
        name: Some(name.to_string()),
        data: values
            .iter()
            .zip(test_labels.iter())
            .map(|(&v, l)| point(v, Some(l)))
            .collect(),
        color: None,
    };
    let all_series = vec![
        mk("Series 1", &test_data),
        mk("Series 2", &[5_000, 15_000, 20_000, 30_000, 25_000]),
        mk("Series 3", &[8_000, 12_000, 25_000, 20_000, 10_000]),
    ];

    let chart_types = vec![
        ("bar", GraphType::Bar),
        ("line", GraphType::Line),
        ("pie", GraphType::Pie),
        ("area", GraphType::Area),
        ("scatter", GraphType::Scatter),
        ("radar", GraphType::Radar),
        ("histogram", GraphType::Histogram),
        ("heatmap", GraphType::Heatmap),
        ("candlestick", GraphType::Candlestick),
        ("gauge", GraphType::Gauge),
        ("bubble", GraphType::Bubble),
        ("stacked_bar", GraphType::StackedBar),
        ("multi_line", GraphType::MultiLine),
    ];
    let themes = ["light", "dark", "material", "minimal"];

    for (name, graph_type) in chart_types {
        for theme in &themes {
            let mut request = base_request();
            request.graph_type = graph_type;
            request.series = clone_series(&all_series);
            request.data = test_data.clone();
            request.title = Some(format!("Test {} Chart ({})", name.to_uppercase(), theme));
            request.x_label = Some("X Axis".to_string());
            request.y_label = Some("Y Axis".to_string());
            request.colors = Some(vec![
                "#3498db".to_string(),
                "#e74c3c".to_string(),
                "#2ecc71".to_string(),
            ]);
            request.theme = Some(theme.to_string());
            request.bins = Some(10);
            request.show_density = Some(false);
            request.cell_size = Some(30_000);
            request.show_values = Some(true);

            assert!(request.well_formed());
            let chart = create_chart(&request);
            let mut svg_content = chart.generate(&request);
            if let Some(theme_name) = &request.theme {
                let theme_obj = ThemeManager::from_name(theme_name);
                svg_content = theme_obj.apply_to_svg(&svg_content);
            }

            assert!(svg_content.contains("<svg"));
            assert!(svg_content.contains("</svg>"));
            assert!(svg_content.contains(request.title.as_ref().unwrap()));
        }
    }
}

fn clone_series(v: &[Series]) -> Vec<Series> {
    v.iter()
        .map(|s| Series {
            name: s.name.clone(),
            data: s
                .data
                .iter()
                .map(|d| DataPoint {
                    value: d.value,
                    label: d.label.clone(),
                    color: d.color.clone(),
                })
                .collect(),
            color: s.color.clone(),
        })
        .collect()
}

#[test]
fn test_time_series_charts() {
    for theme in ["light", "dark"] {
        let mut request = base_request();
        request.title = Some(format!("株価推移 - 時系列データ ({})", theme));
        request.x_label = Some("2025年1月-6月".to_string());
        request.y_label = Some("株価（千円）".to_string());
        request.data = vec![2_800_000, 2_950_000, 2_750_000, 3_100_000, 3_350_000, 3_200_000];
        request.series = vec![
            Series {
                name: Some("日経平均".to_string()),
                data: vec![
                    point(2_800_000, Some("1月")),
                    point(2_950_000, Some("2月")),
                    point(2_750_000, Some("3月")),
                    point(3_100_000, Some("4月")),
                    point(3_350_000, Some("5月")),
                    point(3_200_000, Some("6月")),
                ],
                color: None,
            },
            series("TOPIX", &[1_950_000, 2_100_000, 1_900_000, 2_250_000, 2_400_000, 2_300_000]),
        ];
        request.theme = Some(theme.to_string());

        let chart = chart_engine::charts::line::LineChart {};
        let svg = chart.generate(&request);
        assert!(svg.contains("<svg"));
        assert!(svg.contains("</svg>"));
        assert!(svg.contains(request.title.as_ref().unwrap()));
    }
}

#[test]
fn test_fixed_themes() {
    for theme in ["light", "dark", "material", "minimal"] {
        let mut request = base_request();
        request.graph_type = GraphType::Bar;
        request.title = Some(format!("修正済みバーチャート ({})", theme));
        request.x_label = Some("X軸".to_string());
        request.y_label = Some("Y軸".to_string());
        request.data = vec![10_000, 20_000, 30_000, 25_000, 15_000];
        request.series = vec![
            series("売上", &[10_000, 20_000, 30_000, 25_000, 15_000]),
            series("利益", &[5_000, 15_000, 20_000, 30_000, 25_000]),
        ];
        request.theme = Some(theme.to_string());

        let chart = chart_engine::charts::bar::BarChart {};
        let svg = chart.generate(&request);
        assert!(svg.contains("<svg"));
        assert!(svg.contains("</svg>"));
        assert!(svg.contains(request.title.as_ref().unwrap()));
    }
}

#[test]
fn test_dispatcher_matches_kind() {
    let mut request = base_request();
    request.graph_type = GraphType::Donut;
    match create_chart(&request) {
        AnyChart::Pie(p) => assert!(p.is_donut),
        _ => panic!("donut requests select the pie strategy"),
    }
    request.graph_type = GraphType::Histogram;
    request.bins = Some(4);
    match create_chart(&request) {
        AnyChart::Histogram(h) => assert_eq!(h.bins, 4),
        _ => panic!("histogram requests select the histogram strategy"),
    }
}

#[test]
fn test_validate_rejects_empty_and_thin_radar() {
    let request = base_request();
    assert_eq!(
        request.validate(),
        Err(chart_engine::models::ChartError::EmptyData)
    );
    let mut radar = base_request();
    radar.graph_type = GraphType::Radar;
    radar.data = vec![1_000, 2_000];
    assert_eq!(
        radar.validate(),
        Err(chart_engine::models::ChartError::InsufficientAxes)
    );
    radar.data.push(3_000);
    assert!(radar.validate().is_ok());
    assert_eq!(
        chart_engine::models::ChartError::EmptyData.message(),
        "No data provided"
    );
}
