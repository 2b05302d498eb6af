use panehost::HostEvent;
use panehost::PaneError;
use panehost::PaneHost;
use panehost::Policy;
use panehost::Rect;
use panehost::Scale;
use panehost::ScriptVariant;
use panehost::SurfaceOp;

fn rect(x: i64, y: i64, width: i64, height: i64) -> Rect {
    Rect { x, y, width, height }
}

fn logical_host() -> PaneHost {
    PaneHost::new(Policy::Logical, ScriptVariant::Bridge, "main".to_string())
}

#[test]
fn create_then_close_leaves_no_label() {
    let mut host = logical_host();
    let req = host
        .create("tab-1", "https://example.com", rect(0, 0, 800, 600), None)
        .unwrap();
    assert_eq!(req.label, "tab-1");
    assert!(host.has_pane("tab-1"));
    assert!(host.close("tab-1"));
    assert!(!host.has_pane("tab-1"));
    // Idempotent close: a second close on the same label is a silent no-op.
    assert!(!host.close("tab-1"));
    assert!(!host.has_pane("tab-1"));
}

#[test]
fn create_twice_same_label_rejects_second() {
    let mut host = logical_host();
    host.create("tab-1", "https://example.com", rect(0, 0, 800, 600), None)
        .unwrap();
    let second = host.create("tab-1", "https://example.org", rect(0, 0, 100, 100), None);
    match second {
        Err(PaneError::DuplicateLabel(label)) => {
            assert_eq!(label, "tab-1");
        }
        other => panic!("expected a duplicate-label rejection, got {:?}", other.is_ok()),
    }
    // The first pane is untouched.
    assert!(host.has_pane("tab-1"));
    assert_eq!(host.pane_bounds("tab-1"), Some(rect(0, 0, 800, 600)));
}

#[test]
fn create_rejects_malformed_url() {
    let mut host = logical_host();
    let out = host.create("tab-1", "not a url", rect(0, 0, 800, 600), None);
    match out {
        Err(PaneError::InvalidUrl(detail)) => {
            assert!(!detail.is_empty());
        }
        _ => panic!("expected a URL rejection"),
    }
    assert!(!host.has_pane("tab-1"));
}

#[test]
fn create_normalizes_url_and_places_surface() {
    let mut host = logical_host();
    let req = host
        .create("tab-1", "https://example.com", rect(0, 0, 800, 600), None)
        .unwrap();
    assert_eq!(req.url, "https://example.com/");
    assert_eq!(req.bounds, rect(0, 0, 800, 600));
    assert!(req.script.contains("const LABEL = \"tab-1\""));
    assert!(req.script.contains("const DEST = \"main\""));
}

#[test]
fn create_under_physical_policy_scales() {
    let mut host = PaneHost::new(Policy::Physical, ScriptVariant::Bridge, "main".to_string());
    let req = host
        .create(
            "tab-1",
            "https://example.com",
            rect(100, 0, 800, 600),
            Some(Scale { hundredths: 200 }),
        )
        .unwrap();
    assert_eq!(req.bounds, rect(50, 0, 400, 300));
}

#[test]
fn create_under_physical_policy_needs_scale() {
    let mut host = PaneHost::new(Policy::Physical, ScriptVariant::Bridge, "main".to_string());
    let out = host.create("tab-1", "https://example.com", rect(0, 0, 800, 600), None);
    match out {
        Err(PaneError::ScaleUnavailable) => {}
        _ => panic!("expected a scale-unavailable rejection"),
    }
    assert!(!host.has_pane("tab-1"));
    assert_eq!(
        PaneError::ScaleUnavailable.message(),
        "Failed to read the window scale factor"
    );
}

#[test]
fn end_to_end_navigation_events() {
    let mut host = logical_host();
    host.create("tab-1", "https://example.com", rect(0, 0, 800, 600), None)
        .unwrap();
    let started = host
        .navigation_started("tab-1", "https://example.com/")
        .unwrap();
    assert_eq!(started.channel(), "webview-navigation-started");
    let navigated = host.page_loaded("tab-1", "https://example.com/").unwrap();
    assert_eq!(navigated.channel(), "webview-navigated");
    match &navigated {
        HostEvent::Navigated { label, url } => {
            assert_eq!(label, "tab-1");
            assert_eq!(url, "https://example.com/");
        }
        _ => panic!("expected a navigated event"),
    }
    // The relay's record holds started before navigated for the pane.
    let events = host.events();
    assert_eq!(events.len(), 2);
    assert!(matches!(&events[0], HostEvent::NavigationStarted { label, .. } if label == "tab-1"));
    assert!(matches!(&events[1], HostEvent::Navigated { label, .. } if label == "tab-1"));
}

#[test]
fn page_load_without_started_navigation_is_dropped() {
    let mut host = logical_host();
    host.create("tab-1", "https://example.com", rect(0, 0, 800, 600), None)
        .unwrap();
    assert!(host.page_loaded("tab-1", "https://example.com/").is_none());
    assert_eq!(host.events().len(), 0);
}

#[test]
fn second_page_load_of_one_navigation_is_dropped() {
    let mut host = logical_host();
    host.create("tab-1", "https://example.com", rect(0, 0, 800, 600), None)
        .unwrap();
    host.navigation_started("tab-1", "https://example.com/");
    assert!(host.page_loaded("tab-1", "https://example.com/").is_some());
    assert!(host.page_loaded("tab-1", "https://example.com/").is_none());
    assert_eq!(host.events().len(), 2);
}

#[test]
fn callbacks_after_close_are_dropped() {
    let mut host = logical_host();
    host.create("tab-1", "https://example.com", rect(0, 0, 800, 600), None)
        .unwrap();
    host.close("tab-1");
    assert!(host.navigation_started("tab-1", "https://example.com/").is_none());
    assert!(host.title_changed("tab-1", "Example").is_none());
    assert_eq!(host.events().len(), 0);
}

#[test]
fn title_change_is_relayed() {
    let mut host = logical_host();
    host.create("tab-1", "https://example.com", rect(0, 0, 800, 600), None)
        .unwrap();
    let e = host.title_changed("tab-1", "Example Domain").unwrap();
    assert_eq!(e.channel(), "webview-title-changed");
    match &e {
        HostEvent::TitleChanged { label, title } => {
            assert_eq!(label, "tab-1");
            assert_eq!(title, "Example Domain");
        }
        _ => panic!("expected a title event"),
    }
}

#[test]
fn navigate_unknown_label_reports_error_naming_it() {
    let mut host = logical_host();
    host.create("tab-1", "https://example.com", rect(0, 0, 800, 600), None)
        .unwrap();
    let out = host.navigate("missing-1", "https://example.com");
    match out {
        Err(e) => {
            let msg = e.message();
            assert!(msg.contains("missing-1"));
            assert_eq!(msg, "Webview 'missing-1' not found");
        }
        Ok(_) => panic!("navigation on an unknown label must fail"),
    }
    // A cosmetic operation on the same unknown label is a quiet no-op.
    assert!(!host.hide_pane("missing-1"));
}

#[test]
fn navigate_dispatches_location_assignment() {
    let mut host = logical_host();
    host.create("tab-1", "https://example.com", rect(0, 0, 800, 600), None)
        .unwrap();
    let req = host.navigate("tab-1", "https://example.com/page").unwrap();
    assert_eq!(req.label, "tab-1");
    assert_eq!(req.script, "window.location.href = 'https://example.com/page'");
}

#[test]
fn reload_back_forward_scripts() {
    let mut host = logical_host();
    host.create("tab-1", "https://example.com", rect(0, 0, 800, 600), None)
        .unwrap();
    assert_eq!(host.reload("tab-1").unwrap().script, "location.reload()");
    assert_eq!(host.back("tab-1").unwrap().script, "history.back()");
    assert_eq!(host.forward("tab-1").unwrap().script, "history.forward()");
    assert!(host.reload("gone").is_err());
    assert!(host.back("gone").is_err());
    assert!(host.forward("gone").is_err());
}

#[test]
fn navigation_state_is_the_documented_approximation() {
    let mut host = logical_host();
    host.create("tab-1", "https://example.com", rect(0, 0, 800, 600), None)
        .unwrap();
    assert_eq!(host.query_navigation_state("tab-1").unwrap(), (true, false));
    assert!(host.query_navigation_state("missing-1").is_err());
}

#[test]
fn show_and_hide_toggle_visibility() {
    let mut host = logical_host();
    host.create("tab-1", "https://example.com", rect(0, 0, 800, 600), None)
        .unwrap();
    assert_eq!(host.is_visible("tab-1"), Some(true));
    assert!(host.hide_pane("tab-1"));
    assert_eq!(host.is_visible("tab-1"), Some(false));
    assert!(host.show_pane("tab-1"));
    assert_eq!(host.is_visible("tab-1"), Some(true));
    assert_eq!(host.is_visible("missing-1"), None);
}

#[test]
fn reposition_orders_position_before_size() {
    let mut host = logical_host();
    host.create("tab-1", "https://example.com", rect(0, 0, 800, 600), None)
        .unwrap();
    let plan = host
        .reposition("tab-1", rect(10, 20, 300, 400), None)
        .unwrap()
        .unwrap();
    assert_eq!(plan.bounds, rect(10, 20, 300, 400));
    assert_eq!(plan.ops, vec![SurfaceOp::SetPosition(10, 20), SurfaceOp::SetSize(300, 400)]);
    assert_eq!(host.pane_bounds("tab-1"), Some(rect(10, 20, 300, 400)));
}

#[test]
fn reposition_twice_same_rect_is_idempotent() {
    let mut host = logical_host();
    host.create("tab-1", "https://example.com", rect(0, 0, 800, 600), None)
        .unwrap();
    let first = host
        .reposition("tab-1", rect(10, 20, 300, 400), None)
        .unwrap()
        .unwrap();
    let second = host
        .reposition("tab-1", rect(10, 20, 300, 400), None)
        .unwrap()
        .unwrap();
    assert_eq!(first.bounds, second.bounds);
    assert_eq!(first.ops, second.ops);
    assert_eq!(host.pane_bounds("tab-1"), Some(rect(10, 20, 300, 400)));
}

#[test]
fn reposition_unknown_label_is_quiet() {
    let mut host = logical_host();
    let out = host.reposition("missing-1", rect(10, 20, 300, 400), None).unwrap();
    assert!(out.is_none());
}

#[test]
fn duplicate_label_message_names_the_label() {
    let e = PaneError::DuplicateLabel("tab-9".to_string());
    assert_eq!(e.message(), "Webview 'tab-9' already exists");
    let e = PaneError::InvalidUrl("relative URL without a base".to_string());
    assert_eq!(e.message(), "Failed to parse URL: relative URL without a base");
}
