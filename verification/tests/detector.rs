use agent_computer::detector::{
    cef_framework_paths, detect_app, electron_framework_path, has_cef_framework, has_electron_framework,
    join_path, probe_app_cdp_port, route_interaction, scan_cdp_ports, snapshot_strategy, InteractionEngine,
    SnapshotStrategy,
};
use agent_computer::refmap::InteractionRoute;
use agent_computer::types::{AppKind, ElementRef, Rect, RefSource};

fn nothing_listens(_p: u16) -> bool {
    false
}

fn on_disk(path: &str) -> bool {
    std::path::Path::new(path).exists()
}

#[test]
fn test_detect_known_browser() {
    let kind = detect_app(1234, Some("com.google.Chrome"), None, &on_disk, &nothing_listens);
    match kind {
        AppKind::Browser { .. } => {}
        other => panic!("Expected Browser, got {:?}", other),
    }
}

#[test]
fn test_detect_safari() {
    let kind = detect_app(1234, Some("com.apple.Safari"), None, &on_disk, &nothing_listens);
    match kind {
        AppKind::Browser { .. } => {}
        other => panic!("Expected Browser, got {:?}", other),
    }
}

#[test]
fn test_detect_arc() {
    let kind = detect_app(1234, Some("company.thebrowser.Browser"), None, &on_disk, &nothing_listens);
    match kind {
        AppKind::Browser { .. } => {}
        other => panic!("Expected Browser, got {:?}", other),
    }
}

#[test]
fn test_detect_native_app() {
    let kind = detect_app(1234, Some("com.apple.finder"), None, &on_disk, &nothing_listens);
    match kind {
        AppKind::Native => {}
        other => panic!("Expected Native, got {:?}", other),
    }
}

#[test]
fn test_detect_unknown_bundle() {
    let kind = detect_app(1234, Some("com.unknown.app"), None, &on_disk, &nothing_listens);
    match kind {
        AppKind::Native => {}
        other => panic!("Expected Native, got {:?}", other),
    }
}

#[test]
fn test_detect_no_info() {
    let kind = detect_app(1234, None, None, &on_disk, &nothing_listens);
    match kind {
        AppKind::Native => {}
        other => panic!("Expected Native, got {:?}", other),
    }
}

#[test]
fn test_snapshot_strategy_native() {
    let kind = AppKind::Native;
    match snapshot_strategy(&kind) {
        SnapshotStrategy::AXOnly => {}
        other => panic!("Expected AXOnly, got {:?}", other),
    }
}

#[test]
fn test_snapshot_strategy_browser_with_cdp() {
    let kind = AppKind::Browser { cdp_port: Some(9222) };
    match snapshot_strategy(&kind) {
        SnapshotStrategy::MergedAXAndCDP { cdp_port } => {
            assert_eq!(cdp_port, 9222);
        }
        other => panic!("Expected MergedAXAndCDP, got {:?}", other),
    }
}

#[test]
fn test_snapshot_strategy_browser_no_cdp() {
    let kind = AppKind::Browser { cdp_port: None };
    match snapshot_strategy(&kind) {
        SnapshotStrategy::AXFallback { reason } => {
            assert!(reason.contains("CDP"));
        }
        other => panic!("Expected AXFallback, got {:?}", other),
    }
}

#[test]
fn test_snapshot_strategy_electron_with_cdp() {
    let kind = AppKind::Electron { cdp_port: Some(9223) };
    match snapshot_strategy(&kind) {
        SnapshotStrategy::CDPOnly { cdp_port } => {
            assert_eq!(cdp_port, 9223);
        }
        other => panic!("Expected CDPOnly, got {:?}", other),
    }
}

#[test]
fn test_snapshot_strategy_cef_no_cdp() {
    let kind = AppKind::CEF { cdp_port: None };
    match snapshot_strategy(&kind) {
        SnapshotStrategy::AXFallback { reason } => {
            assert!(reason.contains("CEF"));
        }
        other => panic!("Expected AXFallback, got {:?}", other),
    }
}

#[test]
fn test_has_electron_framework() {
    let fake_path = "/tmp/FakeApp.app";
    assert!(!has_electron_framework(fake_path, &on_disk));
}

#[test]
fn test_has_cef_framework() {
    let fake_path = "/tmp/FakeApp.app";
    assert!(!has_cef_framework(fake_path, &on_disk));
}

#[test]
fn test_interaction_routing() {
    let ax_route = InteractionRoute::AX {
        pid: 123,
        element: ElementRef {
            id: "e1".to_string(),
            source: RefSource::AX,
            role: "button".to_string(),
            label: None,
            frame: None,
            ax_path: None,
            ax_actions: None,
            ax_pid: Some(123),
            cdp_node_id: None,
            cdp_backend_node_id: None,
            cdp_port: None,
            ab_ref: None,
            ab_session: None,
        },
    };
    match route_interaction(&ax_route) {
        InteractionEngine::AX => {}
        _ => panic!("Expected AX engine"),
    }

    let ab_route = InteractionRoute::AgentBrowser {
        session: "spotify".to_string(),
        cdp_port: 9222,
        ab_ref: "e32".to_string(),
        element: ElementRef {
            id: "e2".to_string(),
            source: RefSource::CDP,
            role: "link".to_string(),
            label: None,
            frame: None,
            ax_path: None,
            ax_actions: None,
            ax_pid: None,
            cdp_node_id: Some(10),
            cdp_backend_node_id: Some(42),
            cdp_port: Some(9222),
            ab_ref: Some("e32".to_string()),
            ab_session: Some("spotify".to_string()),
        },
    };
    match route_interaction(&ab_route) {
        InteractionEngine::AgentBrowser { session, cdp_port, ab_ref } => {
            assert_eq!(cdp_port, 9222);
            assert_eq!(ab_ref, "e32");
            assert_eq!(session, "spotify");
        }
        _ => panic!("Expected AgentBrowser engine"),
    }
}

#[test]
fn coordinate_routes_use_input_engine() {
    let frame = Rect { x: 1.0f64.to_bits(), y: 2.0f64.to_bits(), width: 3.0f64.to_bits(), height: 4.0f64.to_bits() };
    let route = InteractionRoute::Coordinate {
        frame,
        element: ElementRef {
            id: "e3".to_string(),
            source: RefSource::Coordinate,
            role: "button".to_string(),
            label: None,
            frame: Some(frame),
            ax_path: None,
            ax_actions: None,
            ax_pid: None,
            cdp_node_id: None,
            cdp_backend_node_id: None,
            cdp_port: None,
            ab_ref: None,
            ab_session: None,
        },
    };
    match route_interaction(&route) {
        InteractionEngine::Input { frame: f } => assert_eq!(f, frame),
        _ => panic!("Expected Input engine"),
    }
}

#[test]
fn strategies_for_remaining_kinds() {
    match snapshot_strategy(&AppKind::Electron { cdp_port: None }) {
        SnapshotStrategy::AXFallback { reason } => assert!(reason.contains("Electron")),
        other => panic!("Expected AXFallback, got {:?}", other),
    }
    match snapshot_strategy(&AppKind::CEF { cdp_port: Some(9300) }) {
        SnapshotStrategy::CDPOnly { cdp_port } => assert_eq!(cdp_port, 9300),
        other => panic!("Expected CDPOnly, got {:?}", other),
    }
    match snapshot_strategy(&AppKind::Unknown) {
        SnapshotStrategy::AXFallback { reason } => assert_eq!(reason, "Unknown app type, using accessibility fallback."),
        other => panic!("Expected AXFallback, got {:?}", other),
    }
}

#[test]
fn browser_detection_takes_first_listening_port() {
    let listens = |p: u16| p == 9224 || p == 9226;
    assert_eq!(scan_cdp_ports(&listens), Some(9224));
    assert_eq!(scan_cdp_ports(&nothing_listens), None);
    assert_eq!(probe_app_cdp_port(1, Some(9300), &listens), Some(9224));
    assert_eq!(probe_app_cdp_port(1, Some(9300), &nothing_listens), None);
    assert_eq!(probe_app_cdp_port(1, Some(9226), &listens), Some(9226));
    assert_eq!(probe_app_cdp_port(1, None, &listens), Some(9224));
    match detect_app(1, Some("com.google.Chrome"), Some("/Applications/Chrome.app"), &on_disk, &listens) {
        AppKind::Browser { cdp_port } => assert_eq!(cdp_port, Some(9224)),
        other => panic!("Expected Browser, got {:?}", other),
    }
}

#[test]
fn framework_paths_inside_bundle() {
    assert_eq!(join_path("/a", "b"), "/a/b");
    assert_eq!(join_path("/a/", "b"), "/a/b");
    assert_eq!(
        electron_framework_path("/Applications/Slack.app"),
        "/Applications/Slack.app/Contents/Frameworks/Electron Framework.framework"
    );
    let (a, b) = cef_framework_paths("/Applications/Spotify.app");
    assert_eq!(a, "/Applications/Spotify.app/Contents/Frameworks/Chromium Embedded Framework.framework");
    assert_eq!(b, "/Applications/Spotify.app/Contents/Frameworks/Chromium Embedded Framework");
}

#[test]
fn framework_checks_decide_the_app_kind() {
    let electron = |p: &str| p == "/Apps/Slack.app/Contents/Frameworks/Electron Framework.framework";
    let cef = |p: &str| p == "/Apps/Spotify.app/Contents/Frameworks/Chromium Embedded Framework";
    let everything = |_p: &str| true;
    let listens = |p: u16| p == 9227;
    assert!(has_electron_framework("/Apps/Slack.app", &electron));
    assert!(!has_cef_framework("/Apps/Slack.app", &electron));
    assert!(has_cef_framework("/Apps/Spotify.app", &cef));
    assert!(!has_electron_framework("/Apps/Spotify.app", &cef));
    match detect_app(7, Some("com.tinyspeck.slackmacgap"), Some("/Apps/Slack.app"), &electron, &listens) {
        AppKind::Electron { cdp_port } => assert_eq!(cdp_port, Some(9227)),
        other => panic!("Expected Electron, got {:?}", other),
    }
    match detect_app(7, Some("com.spotify.client"), Some("/Apps/Spotify.app"), &cef, &nothing_listens) {
        AppKind::CEF { cdp_port } => assert_eq!(cdp_port, None),
        other => panic!("Expected CEF, got {:?}", other),
    }
    match detect_app(7, None, Some("/Apps/Both.app"), &everything, &nothing_listens) {
        AppKind::Electron { .. } => {}
        other => panic!("Expected Electron before CEF, got {:?}", other),
    }
    match detect_app(7, None, Some("/Apps/Notes.app"), &electron, &nothing_listens) {
        AppKind::Native => {}
        other => panic!("Expected Native, got {:?}", other),
    }
    match detect_app(7, Some("com.google.Chrome"), Some("/Apps/Slack.app"), &electron, &nothing_listens) {
        AppKind::Browser { .. } => {}
        other => panic!("Expected Browser, got {:?}", other),
    }
}
