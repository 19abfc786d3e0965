use ghost::models::{HealthStatus, SecurityStatus, SessionInfo, format_session_duration};
use ghost::text::{
    chars_le, contains_chars, parse_u16_chars, str_eq, trim_chars, u16_to_string, u64_to_string,
};
use ghost::themes::ThemeVariant;
use ghost::ui::{create_duration_progress_bar, format_std_duration, render_latency_sparkline};
use ghost::ui_state::{
    LayoutMode, LoadingContext, PanelLayout, TooltipCategory, TooltipState, get_globe_char,
    should_auto_dismiss_popup,
};

fn chars(s: &str) -> Vec<char> {
    s.chars().collect()
}

#[test]
fn decimal_rendering_is_exact() {
    assert_eq!(u64_to_string(0), "0");
    assert_eq!(u64_to_string(7), "7");
    assert_eq!(u64_to_string(10), "10");
    assert_eq!(u64_to_string(65535), "65535");
    assert_eq!(u64_to_string(18446744073709551615), "18446744073709551615");
    assert_eq!(u16_to_string(22), "22");
}

#[test]
fn parsing_follows_the_standard_rules() {
    assert_eq!(parse_u16_chars(&chars("22")), Some(22));
    assert_eq!(parse_u16_chars(&chars("+22")), Some(22));
    assert_eq!(parse_u16_chars(&chars("0")), Some(0));
    assert_eq!(parse_u16_chars(&chars("65535")), Some(65535));
    assert_eq!(parse_u16_chars(&chars("65536")), None);
    assert_eq!(parse_u16_chars(&chars("")), None);
    assert_eq!(parse_u16_chars(&chars("+")), None);
    assert_eq!(parse_u16_chars(&chars(" 22")), None);
    assert_eq!(parse_u16_chars(&chars("2a")), None);
    assert_eq!(parse_u16_chars(&chars("-1")), None);
}

#[test]
fn trimming_and_search() {
    let t: String = trim_chars(&chars("  box \t")).iter().collect();
    assert_eq!(t, "box");
    let t: String = trim_chars(&chars("   ")).iter().collect();
    assert_eq!(t, "");
    assert!(contains_chars(&chars("example.com"), &chars("ample")));
    assert!(contains_chars(&chars("abc"), &chars("")));
    assert!(!contains_chars(&chars("abc"), &chars("abcd")));
    assert!(str_eq("same", "same"));
    assert!(!str_eq("same", "sane"));
    assert!(chars_le(&chars("alpha"), &chars("beta")));
    assert!(chars_le(&chars("ab"), &chars("abc")));
    assert!(!chars_le(&chars("b"), &chars("ab")));
    assert!(chars_le(&chars(""), &chars("a")));
}

#[test]
fn duration_renderings() {
    assert_eq!(format_std_duration(45), "45s");
    assert_eq!(format_std_duration(125), "2m 5s");
    assert_eq!(format_std_duration(3725), "1h 2m");
    assert_eq!(format_session_duration(45), "45s");
    assert_eq!(format_session_duration(125), "2m 5s");
    assert_eq!(format_session_duration(3725), "1h 2m 5s");

    let session = SessionInfo::new(7, "w".to_string(), "s".to_string(), 10_000);
    assert_eq!(session.duration_secs(14_200), 4);
    assert_eq!(session.duration_secs(5_000), 0);
    assert_eq!(session.format_duration(135_000), "2m 5s");
}

#[test]
fn progress_bar_scales_with_age() {
    assert_eq!(create_duration_progress_bar(0), "▁▁▁▁▁");
    assert_eq!(create_duration_progress_bar(400), "▂▂▂▂▂");
    assert_eq!(create_duration_progress_bar(1000), "▃▃▃▃▃");
    assert_eq!(create_duration_progress_bar(3000), "▄▄▄▄▄");
    assert_eq!(create_duration_progress_bar(7000), "▅▅▅▅▅");
    assert_eq!(create_duration_progress_bar(8000), "▆▆▆▆▆");
}

#[test]
fn sparkline_shows_newest_first() {
    assert_eq!(render_latency_sparkline(&Vec::new()), "▁▁▁▁▁");
    // Max is 20: 10 scales to step three, 20 to the full block; the newest
    // measurement comes first.
    assert_eq!(render_latency_sparkline(&vec![10, 20]), "█▄");
    assert_eq!(render_latency_sparkline(&vec![0, 0]), "▁▁");
    // Only the last eight measurements are drawn.
    let long: Vec<u32> = vec![1, 1, 1, 1, 1, 1, 1, 1, 1, 100];
    assert_eq!(render_latency_sparkline(&long).chars().count(), 8);
}

#[test]
fn status_strings_and_symbols() {
    assert_eq!(HealthStatus::Online.as_str(), "ONLINE");
    assert_eq!(HealthStatus::Connecting.as_str(), "CONNECTING");
    assert_eq!(HealthStatus::Unknown.symbol(), "?");
    assert_eq!(HealthStatus::Warning.symbol(), "▲");
    assert_eq!(SecurityStatus::Vulnerable.as_str(), "VULNERABLE");
    assert_eq!(SecurityStatus::Secure.symbol(), "🛡");
    assert_eq!(SecurityStatus::Compromised.as_str(), "COMPROMISED");
}

#[test]
fn theme_catalog() {
    let all = ThemeVariant::all();
    assert_eq!(all.len(), 12);
    assert_eq!(ThemeVariant::default(), ThemeVariant::TokyoNightDark);
    assert_eq!(ThemeVariant::TokyoNightDark.name(), "Tokyo Night (Dark)");
    assert_eq!(ThemeVariant::SolarizedLight.name(), "Solarized (Light)");
    assert!(ThemeVariant::DraculaDark.is_dark());
    assert!(!ThemeVariant::GruvboxLight.is_dark());
    for v in all {
        assert_eq!(v.next_variant().previous_variant(), v);
    }
    assert_eq!(ThemeVariant::Ayu.next_variant(), ThemeVariant::TokyoNightDark);
}

#[test]
fn panel_layout_cycles_and_resizes() {
    let mut layout = PanelLayout::default();
    assert_eq!(layout.mode, LayoutMode::ThreePanel);
    assert_eq!(layout.panel_sizes, [50, 25, 25]);

    layout.resize_panels(5);
    assert_eq!(layout.panel_sizes, [55, 22, 23]);
    layout.resize_panels(100);
    assert_eq!(layout.panel_sizes, [60, 20, 20]);
    layout.resize_panels(-100);
    assert_eq!(layout.panel_sizes, [20, 40, 40]);

    layout.cycle_layout();
    assert_eq!(layout.mode, LayoutMode::SinglePanel);
    assert_eq!(layout.panel_sizes, [100, 0, 0]);
    layout.resize_panels(5);
    assert_eq!(layout.panel_sizes, [100, 0, 0]);

    layout.cycle_layout();
    assert_eq!(layout.mode, LayoutMode::TwoPanel);
    assert_eq!(layout.panel_sizes, [70, 30, 0]);
    layout.resize_panels(-5);
    assert_eq!(layout.panel_sizes, [65, 35, 0]);

    layout.cycle_layout();
    assert_eq!(layout.mode, LayoutMode::ThreePanel);
}

#[test]
fn loading_progress_display() {
    let ctx = LoadingContext::RefreshingHealth { total: 10, completed: 3 };
    assert_eq!(ctx.progress_display(), "3/10");
    let empty = LoadingContext::RefreshingHealth { total: 0, completed: 0 };
    assert_eq!(empty.progress_display(), "0/0");
}

#[test]
fn tooltips_show_hide_and_expire() {
    let mut t = TooltipState::new();
    assert!(t.show_tooltips);
    t.show_tooltip(
        "Server".to_string(),
        "Connect with Enter".to_string(),
        Some("Enter".to_string()),
        TooltipCategory::Server,
    );
    let shown = t.current_tooltip.as_ref().expect("shown");
    assert_eq!(shown.title, "Server");
    assert_eq!(shown.category, TooltipCategory::Server);
    let at = t.tooltip_shown_at_ms.expect("stamped");
    assert!(!t.should_auto_dismiss_tooltip(at + 2_999));
    assert!(t.should_auto_dismiss_tooltip(at + 3_000));
    t.hide_tooltip();
    assert!(t.current_tooltip.is_none());

    t.toggle_tooltips();
    assert!(!t.show_tooltips);
    t.show_tooltip("x".to_string(), "y".to_string(), None, TooltipCategory::System);
    assert!(t.current_tooltip.is_none());
}

#[test]
fn popups_expire_after_four_seconds() {
    assert!(!should_auto_dismiss_popup(&None, 10_000));
    assert!(!should_auto_dismiss_popup(&Some(7_000), 10_999));
    assert!(should_auto_dismiss_popup(&Some(7_000), 11_000));
}

#[test]
fn globe_animation_phases() {
    assert_eq!(get_globe_char(0), "◐");
    assert_eq!(get_globe_char(20), "◓");
    assert_eq!(get_globe_char(40), "◑");
    assert_eq!(get_globe_char(60), "◒");
    assert_eq!(get_globe_char(79), "◒");
}
