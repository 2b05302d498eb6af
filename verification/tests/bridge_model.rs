use panehost::ConsoleBuffer;
use panehost::MetaTag;
use panehost::dedup_meta_tags;
use panehost::ConsoleLine;
use panehost::LogLevel;
use panehost::SelectionMonitor;
use panehost::TelemetryKind;
use panehost::cap_chars;

#[test]
fn selection_first_report_emits() {
    let mut m = SelectionMonitor::new();
    assert_eq!(m.observe("hello"), Some("hello".to_string()));
}

#[test]
fn selection_unchanged_does_not_reemit() {
    let mut m = SelectionMonitor::new();
    assert_eq!(m.observe("hello"), Some("hello".to_string()));
    assert_eq!(m.observe("hello"), None);
    assert_eq!(m.observe("hello"), None);
    assert_eq!(m.observe("world"), Some("world".to_string()));
    assert_eq!(m.observe("world"), None);
}

#[test]
fn selection_empty_never_emits() {
    let mut m = SelectionMonitor::new();
    assert_eq!(m.observe(""), None);
    assert_eq!(m.observe("a"), Some("a".to_string()));
    assert_eq!(m.observe(""), None);
}

#[test]
fn selection_is_capped_before_comparison() {
    let long_a = "a".repeat(700);
    let long_b = format!("{}{}", "a".repeat(500), "b".repeat(100));
    let mut m = SelectionMonitor::new();
    let first = m.observe(&long_a).unwrap();
    assert_eq!(first.chars().count(), 500);
    // Same first 500 characters: no new event, however the tail differs.
    assert_eq!(m.observe(&long_b), None);
}

#[test]
fn cap_chars_shorter_is_unchanged() {
    assert_eq!(cap_chars("abc", 5), "abc");
    assert_eq!(cap_chars("abcde", 5), "abcde");
}

#[test]
fn cap_chars_truncates() {
    assert_eq!(cap_chars("abcdef", 5), "abcde");
    assert_eq!(cap_chars("abcdef", 0), "");
}

#[test]
fn console_ring_keeps_last_fifty() {
    let mut b = ConsoleBuffer::new();
    for i in 0..60 {
        b.push(ConsoleLine { level: LogLevel::Log, message: format!("line {}", i) });
    }
    assert_eq!(b.len(), 50);
}

#[test]
fn console_ring_below_cap_keeps_all() {
    let mut b = ConsoleBuffer::new();
    for i in 0..7 {
        b.push(ConsoleLine { level: LogLevel::Warn, message: format!("w{}", i) });
    }
    assert_eq!(b.len(), 7);
}

fn tag(key: &str, content: &str) -> MetaTag {
    MetaTag { key: key.to_string(), content: content.to_string() }
}

#[test]
fn meta_dedup_first_content_wins() {
    let tags = vec![
        tag("description", "one"),
        tag("og:title", "Example"),
        tag("description", "two"),
        tag("theme-color", "#fff"),
        tag("og:title", "Other"),
    ];
    let out = dedup_meta_tags(&tags);
    let pairs: Vec<(&str, &str)> = out
        .iter()
        .map(|t| (t.key.as_str(), t.content.as_str()))
        .collect();
    assert_eq!(
        pairs,
        vec![("description", "one"), ("og:title", "Example"), ("theme-color", "#fff")]
    );
}

#[test]
fn meta_dedup_keeps_distinct_keys() {
    let tags = vec![tag("a", "1"), tag("b", "2"), tag("c", "3")];
    let out = dedup_meta_tags(&tags);
    assert_eq!(out.len(), 3);
}

#[test]
fn telemetry_kind_names() {
    assert_eq!(TelemetryKind::PageInfo.name(), "page-info");
    assert_eq!(TelemetryKind::Selection.name(), "selection");
    assert_eq!(TelemetryKind::Resource.name(), "resource");
    assert_eq!(TelemetryKind::Paint.name(), "paint");
    assert_eq!(TelemetryKind::Lcp.name(), "lcp");
    assert_eq!(TelemetryKind::Navigation.name(), "navigation");
    assert_eq!(TelemetryKind::LongTask.name(), "longtask");
    assert_eq!(TelemetryKind::Fetch.name(), "fetch");
    assert_eq!(TelemetryKind::FetchError.name(), "fetch-error");
    assert_eq!(TelemetryKind::Xhr.name(), "xhr");
    assert_eq!(TelemetryKind::Console.name(), "console");
    assert_eq!(TelemetryKind::Error.name(), "error");
    assert_eq!(TelemetryKind::UnhandledRejection.name(), "unhandledrejection");
    assert_eq!(TelemetryKind::Heartbeat.name(), "heartbeat");
    assert_eq!(TelemetryKind::Init.name(), "init");
}

#[test]
fn log_level_names() {
    assert_eq!(LogLevel::Log.name(), "log");
    assert_eq!(LogLevel::Info.name(), "info");
    assert_eq!(LogLevel::Warn.name(), "warn");
    assert_eq!(LogLevel::Error.name(), "error");
}
