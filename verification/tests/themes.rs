//! Theme lookup, palette access, text display, and the recoloring pass.

use chart_engine::num::{fmt_milli_0dp, fmt_milli_1dp, fmt_milli_2dp};
use chart_engine::themes::{replace_all, str_eq, ascii_lower, Theme, ThemeManager};
use chart_engine::utils::{format_number, get_default_colors};

#[test]
fn test_theme_lookup_and_fallback() {
    assert_eq!(ThemeManager::from_name("dark").name, "Dark");
    assert_eq!(ThemeManager::from_name("DARK").name, "Dark");
    assert_eq!(ThemeManager::from_name("material").name, "Material");
    assert_eq!(ThemeManager::from_name("minimal").name, "Minimal");
    assert_eq!(ThemeManager::from_name("light").name, "Light");
    assert_eq!(ThemeManager::from_name("no-such-theme").name, "Light");
}

#[test]
fn test_palette_wraps_around() {
    let theme = Theme::light();
    assert_eq!(theme.get_color(0).as_str(), "#3498db");
    assert_eq!(theme.get_color(8).as_str(), "#3498db");
    assert_eq!(theme.get_color(9).as_str(), "#e74c3c");
}

#[test]
fn test_manager_holds_and_switches_themes() {
    let mut manager = ThemeManager::new();
    let names: Vec<String> = manager.list_themes().iter().map(|n| n.to_string()).collect();
    assert_eq!(names, ["Light", "Dark", "Material", "Minimal"]);
    assert!(manager.get_theme("Dark").is_some());
    assert!(manager.get_theme("Nocturne").is_none());
    manager.set_current_theme("Dark".to_string());
    assert_eq!(manager.get_current_theme().unwrap().name, "Dark");
    manager.set_current_theme("Nocturne".to_string());
    assert_eq!(manager.get_current_theme().unwrap().name, "Dark");
    let mut extra = Theme::minimal();
    extra.name = "Mono".to_string();
    manager.add_theme(extra);
    assert!(manager.get_theme("Mono").is_some());
}

#[test]
fn test_generate_css_carries_theme_colors() {
    let css = Theme::dark().generate_css();
    assert!(css.contains(".chart-background { fill: #2c3e50; }"));
    assert!(css.contains(".chart-text { font-family: Arial, sans-serif; fill: #ecf0f1; }"));
}

#[test]
fn test_replace_all_scans_left_to_right() {
    assert_eq!(replace_all("ababab", "ab", "x"), "xxx");
    assert_eq!(replace_all("aaaa", "aa", "b"), "bb");
    assert_eq!(replace_all("hello", "xyz", "q"), "hello");
    assert_eq!(replace_all("fill=\"white\" fill=\"white\"", "fill=\"white\"", "fill=\"#222\""),
        "fill=\"#222\" fill=\"#222\"");
}

#[test]
fn test_apply_to_svg_recolors_defaults() {
    let theme = ThemeManager::from_name("dark");
    let svg = "<rect fill=\"white\"/><line stroke=\"black\"/><text fill=\"#333333\">v</text>";
    let out = theme.apply_to_svg(svg);
    assert!(out.contains("fill=\"#2c3e50\""));
    assert!(out.contains("stroke=\"#ecf0f1\""));
    assert!(!out.contains("fill=\"white\""));
}

#[test]
fn test_string_helpers() {
    assert!(str_eq("abc", "abc"));
    assert!(!str_eq("abc", "abd"));
    assert!(!str_eq("abc", "ab"));
    assert_eq!(ascii_lower("MiXeD-42"), "mixed-42");
}

#[test]
fn test_default_palette() {
    let colors = get_default_colors();
    assert_eq!(colors.len(), 7);
    assert_eq!(colors[0], "#0000FF");
}

#[test]
fn test_number_display() {
    // Whole quantities drop the decimals; others keep one.
    assert_eq!(format_number(30_000), "30");
    assert_eq!(format_number(-2_000), "-2");
    assert_eq!(format_number(2_800), "2.8");
    assert_eq!(format_number(-1_500), "-1.5");
    assert_eq!(format_number(0), "0");
    // The fixed-decimal forms round half away from zero.
    assert_eq!(fmt_milli_1dp(133_333), "133.3");
    assert_eq!(fmt_milli_1dp(266_666), "266.7");
    assert_eq!(fmt_milli_1dp(-50), "-0.1");
    assert_eq!(fmt_milli_0dp(1_499), "1");
    assert_eq!(fmt_milli_0dp(1_500), "2");
    assert_eq!(fmt_milli_2dp(1_234), "1.23");
    assert_eq!(fmt_milli_2dp(1_235), "1.24");
}
