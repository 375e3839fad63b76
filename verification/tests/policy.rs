//! The capture policy, the one-shot installation flag, and the color
//! intensity transform.

use color_anyhow::config::capture_backtrace;
use color_anyhow::config::capture_span_trace;
use color_anyhow::config::include_source_context;
use color_anyhow::config::verbosity_from_env;
use color_anyhow::config::Verbosity;
use color_anyhow::handler::Color;
use color_anyhow::handler::Style;
use color_anyhow::install;
use color_anyhow::HookState;
use color_anyhow::InstallError;

fn s(v: &str) -> Option<String> {
    Some(v.to_string())
}

#[test]
fn verbosity_defaults_to_off() {
    assert_eq!(verbosity_from_env(None, None), Verbosity::Off);
}

#[test]
fn trace_value_enables_minimal_tier() {
    assert_eq!(verbosity_from_env(s("1"), None), Verbosity::Minimal);
    assert_eq!(verbosity_from_env(s("yes"), None), Verbosity::Minimal);
}

#[test]
fn zero_trace_value_means_off() {
    assert_eq!(verbosity_from_env(s("0"), None), Verbosity::Off);
}

#[test]
fn backtrace_value_selects_short_tier() {
    assert_eq!(verbosity_from_env(None, s("1")), Verbosity::Short);
    assert_eq!(verbosity_from_env(s("0"), s("1")), Verbosity::Short);
}

#[test]
fn full_backtrace_value_selects_full_tier() {
    assert_eq!(verbosity_from_env(None, s("full")), Verbosity::Full);
    assert_eq!(verbosity_from_env(s("1"), s("full")), Verbosity::Full);
}

#[test]
fn zero_backtrace_value_counts_as_absent() {
    assert_eq!(verbosity_from_env(None, s("0")), Verbosity::Off);
    assert_eq!(verbosity_from_env(s("1"), s("0")), Verbosity::Minimal);
}

#[test]
fn capture_predicates_follow_the_tier() {
    assert!(!capture_span_trace(&Verbosity::Off));
    assert!(capture_span_trace(&Verbosity::Minimal));
    assert!(capture_span_trace(&Verbosity::Short));
    assert!(capture_span_trace(&Verbosity::Full));
    assert!(!capture_backtrace(&Verbosity::Off));
    assert!(!capture_backtrace(&Verbosity::Minimal));
    assert!(capture_backtrace(&Verbosity::Short));
    assert!(capture_backtrace(&Verbosity::Full));
    assert!(!include_source_context(&Verbosity::Short));
    assert!(include_source_context(&Verbosity::Full));
}

#[test]
fn first_install_wins_second_fails() {
    let mut hooks = HookState::new();
    assert!(install(&mut hooks).is_ok());
    match install(&mut hooks) {
        Err(InstallError::AlreadyInstalled) => {},
        Ok(()) => panic!("second install must fail"),
    }
    // the failing call left the state installed and unchanged
    match install(&mut hooks) {
        Err(InstallError::AlreadyInstalled) => {},
        Ok(()) => panic!("third install must fail"),
    }
}

#[test]
fn named_colors_become_bright_fixed() {
    assert_eq!(Color::Black.make_intense(), Color::Fixed(8));
    assert_eq!(Color::Red.make_intense(), Color::Fixed(9));
    assert_eq!(Color::Green.make_intense(), Color::Fixed(10));
    assert_eq!(Color::Yellow.make_intense(), Color::Fixed(11));
    assert_eq!(Color::Blue.make_intense(), Color::Fixed(12));
    assert_eq!(Color::Purple.make_intense(), Color::Fixed(13));
    assert_eq!(Color::Cyan.make_intense(), Color::Fixed(14));
    assert_eq!(Color::White.make_intense(), Color::Fixed(15));
}

#[test]
fn low_indexed_colors_move_up_and_others_stay() {
    assert_eq!(Color::Fixed(0).make_intense(), Color::Fixed(8));
    assert_eq!(Color::Fixed(7).make_intense(), Color::Fixed(15));
    assert_eq!(Color::Fixed(8).make_intense(), Color::Fixed(8));
    assert_eq!(Color::Fixed(255).make_intense(), Color::Fixed(255));
    assert_eq!(Color::RGB(1, 2, 3).make_intense(), Color::RGB(1, 2, 3));
}

#[test]
fn make_intense_is_idempotent_and_total_over_the_palette() {
    let named = [
        Color::Black,
        Color::Red,
        Color::Green,
        Color::Yellow,
        Color::Blue,
        Color::Purple,
        Color::Cyan,
        Color::White,
    ];
    for c in named {
        assert_eq!(c.make_intense().make_intense(), c.make_intense());
    }
    for n in 0..=255u8 {
        let c = Color::Fixed(n);
        assert_eq!(c.make_intense().make_intense(), c.make_intense());
    }
}

#[test]
fn style_transform_touches_only_the_foreground() {
    let styled = Style { foreground: Some(Color::Red) };
    assert_eq!(styled.make_intense(), Style { foreground: Some(Color::Fixed(9)) });
    let plain = Style { foreground: None };
    assert_eq!(plain.make_intense(), plain);
}
