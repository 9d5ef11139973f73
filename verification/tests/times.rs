use agent_tools::datetime::{render, CurrentTime};
use agent_tools::i18n::{Lang, Locale};
use agent_tools::json::Json;
use agent_tools::times::Moment;

fn ru() -> Locale {
    Lang::Ru.locale()
}

/// 2026-06-23 12:30:00 UTC, on a clock three hours ahead.
fn noon() -> Moment {
    Moment { secs: 1_782_217_800, nanos: 0, offset: 10_800 }
}

#[test]
fn default_render_has_local_and_utc() {
    let s = render(noon(), None, &ru());
    assert!(s.contains("Локальное время:"), "got: {s}");
    assert!(s.contains("UTC:"), "got: {s}");
    assert!(s.contains("2026"), "got: {s}");
    assert!(s.contains("15:30:00") && s.contains("12:30:00"), "got: {s}");
}

#[test]
fn custom_format_is_applied() {
    let s = render(noon(), Some("%Y-%m-%d"), &ru());
    assert!(s.contains("2026"), "got: {s}");
    assert!(!s.contains("UTC"), "format mode doesn't print UTC: {s}");
    assert_eq!(s, "2026-06-23");
}

#[test]
fn invalid_format_reports_error() {
    let s = render(noon(), Some("%Q"), &ru());
    assert!(s.contains("Неверная строка формата"), "got: {s}");
}

#[test]
fn empty_format_falls_back_to_default() {
    let s = render(noon(), Some("   "), &ru());
    assert!(s.contains("UTC:"), "got: {s}");
}

#[test]
fn tool_returns_time() {
    let out = CurrentTime.outcome(noon(), &Json::from_text("{}").unwrap(), &ru());
    assert!(out.result.contains("UTC"), "got: {}", out.result);
    assert!(out.effects.is_empty());
    let args = Json::from_text(r#"{"format": "%H"}"#).unwrap();
    assert_eq!(CurrentTime.outcome(noon(), &args, &ru()).result, "15");
}
