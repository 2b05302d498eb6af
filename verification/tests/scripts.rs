use panehost::ScriptVariant;
use panehost::build_bridge_script;
use panehost::build_init_script;
use panehost::build_navigate_script;
use panehost::build_placeholder_script;
use panehost::js_quote;

#[test]
fn quote_plain_label() {
    assert_eq!(js_quote("tab-1"), "\"tab-1\"");
}

#[test]
fn quote_escapes_hostile_label() {
    assert_eq!(js_quote("a\"b\\c\nd\re\tf"), "\"a\\\"b\\\\c\\nd\\re\\tf\"");
}

#[test]
fn quote_empty() {
    assert_eq!(js_quote(""), "\"\"");
}

#[test]
fn placeholder_script_exact() {
    assert_eq!(
        build_placeholder_script("tab-1"),
        "(() => {\n  const LABEL = \"tab-1\";\n})();\n"
    );
}

#[test]
fn bridge_script_binds_label_and_destination() {
    let s = build_bridge_script("tab-1", "main");
    assert!(s.starts_with("(() => {\n  const LABEL = \"tab-1\";\n  const DEST = \"main\";\n"));
    assert!(s.contains("'webview-telemetry'"));
    assert!(s.contains("emitTo(DEST, event, p)"));
    assert!(s.contains("'heartbeat'"));
    assert!(s.contains("'selection'"));
    assert!(s.contains("'page-info'"));
}

#[test]
fn bridge_script_applies_the_documented_caps() {
    // The caps the in-pane bridge applies are the model's named constants.
    let s = build_bridge_script("tab-1", "main");
    assert!(s.contains(&format!("slice(0, {})", panehost::telemetry::SELECTION_CAP)));
    assert!(s.contains(&format!("slice(0, {})", panehost::telemetry::PREVIEW_CAP)));
    assert!(s.contains(&format!("slice(0, {})", panehost::telemetry::LINK_CAP)));
    assert!(s.contains(&format!("slice(0, {})", panehost::telemetry::HEADING_CAP)));
    assert!(s.contains(&format!("], {})", panehost::telemetry::CONSOLE_KEEP)));
    assert!(s.contains(&format!(", {})", panehost::telemetry::HEARTBEAT_INTERVAL_MS)));
}

#[test]
fn bridge_script_label_cannot_break_out() {
    // A label full of quote characters stays inside its string literal.
    let s = build_bridge_script("x\";drop();//", "main");
    assert!(s.starts_with("(() => {\n  const LABEL = \"x\\\";drop();//\";"));
}

#[test]
fn init_script_selects_variant() {
    assert_eq!(
        build_init_script(ScriptVariant::Placeholder, "p", "main"),
        build_placeholder_script("p")
    );
    assert_eq!(
        build_init_script(ScriptVariant::Bridge, "p", "main"),
        build_bridge_script("p", "main")
    );
}

#[test]
fn navigate_script_exact() {
    assert_eq!(
        build_navigate_script("https://example.com/"),
        "window.location.href = 'https://example.com/'"
    );
}
