use agent_computer::refmap::{build_ax_refmap, build_cdp_refmap, build_merged_refmap, format_ref_id, ref_number_of, InteractionRoute, RefMap};
use agent_computer::types::{ElementRef, Rect, RefSource};

fn rect(x: f64, y: f64, width: f64, height: f64) -> Rect {
    Rect { x: x.to_bits(), y: y.to_bits(), width: width.to_bits(), height: height.to_bits() }
}

fn make_ax_ref(id: &str, role: &str, label: Option<&str>, pid: i32) -> ElementRef {
    ElementRef {
        id: id.to_string(),
        source: RefSource::AX,
        role: role.to_string(),
        label: label.map(|s| s.to_string()),
        frame: Some(rect(0.0, 0.0, 100.0, 30.0)),
        ax_path: None,
        ax_actions: Some(vec!["AXPress".to_string()]),
        ax_pid: Some(pid),
        cdp_node_id: None,
        cdp_backend_node_id: None,
        cdp_port: None,
        ab_ref: None,
        ab_session: None,
    }
}

fn make_cdp_ref(id: &str, role: &str, label: Option<&str>, port: u16) -> ElementRef {
    ElementRef {
        id: id.to_string(),
        source: RefSource::CDP,
        role: role.to_string(),
        label: label.map(|s| s.to_string()),
        frame: None,
        ax_path: None,
        ax_actions: None,
        ax_pid: None,
        cdp_node_id: Some(42),
        cdp_backend_node_id: Some(100),
        cdp_port: Some(port),
        ab_ref: Some(format!("e{}", 50)),
        ab_session: Some("test-app".to_string()),
    }
}

#[test]
fn test_refmap_basic_operations() {
    let mut refmap = RefMap::new();
    assert!(refmap.is_empty());

    refmap.insert(make_ax_ref("e1", "button", Some("OK"), 1234));
    assert_eq!(refmap.len(), 1);

    let elem = refmap.resolve("e1");
    assert!(elem.is_some());
    assert_eq!(elem.unwrap().role, "button");
    assert_eq!(elem.unwrap().label.as_deref(), Some("OK"));

    let elem2 = refmap.resolve("@e1");
    assert!(elem2.is_some());
    assert_eq!(elem2.unwrap().id, "e1");
}

#[test]
fn test_refmap_resolve_missing() {
    let refmap = RefMap::new();
    assert!(refmap.resolve("e99").is_none());
}

#[test]
fn test_merged_refmap_numbering() {
    let ax_refs = vec![
        make_ax_ref("tmp1", "button", Some("Back"), 123),
        make_ax_ref("tmp2", "textbox", Some("Address"), 123),
    ];
    let cdp_refs = vec![
        make_cdp_ref("tmp3", "link", Some("Home"), 9222),
        make_cdp_ref("tmp4", "button", Some("Submit"), 9222),
        make_cdp_ref("tmp5", "textbox", Some("Search"), 9222),
    ];

    let refmap = build_merged_refmap(ax_refs, cdp_refs);
    assert_eq!(refmap.len(), 5);

    let e1 = refmap.resolve("e1").unwrap();
    assert_eq!(e1.source, RefSource::AX);
    assert_eq!(e1.label.as_deref(), Some("Back"));

    let e2 = refmap.resolve("e2").unwrap();
    assert_eq!(e2.source, RefSource::AX);
    assert_eq!(e2.label.as_deref(), Some("Address"));

    let e3 = refmap.resolve("e3").unwrap();
    assert_eq!(e3.source, RefSource::CDP);
    assert_eq!(e3.label.as_deref(), Some("Home"));

    let e4 = refmap.resolve("e4").unwrap();
    assert_eq!(e4.source, RefSource::CDP);
    assert_eq!(e4.label.as_deref(), Some("Submit"));

    let e5 = refmap.resolve("e5").unwrap();
    assert_eq!(e5.source, RefSource::CDP);
    assert_eq!(e5.label.as_deref(), Some("Search"));
}

#[test]
fn test_routing_ax_ref() {
    let mut refmap = RefMap::new();
    refmap.insert(make_ax_ref("e1", "button", Some("OK"), 1234));

    let route = refmap.route("e1").unwrap();
    match route {
        InteractionRoute::AX { pid, element } => {
            assert_eq!(pid, 1234);
            assert_eq!(element.role, "button");
        }
        _ => panic!("Expected AX route"),
    }
}

#[test]
fn test_routing_cdp_ref() {
    let mut refmap = RefMap::new();
    refmap.insert(make_cdp_ref("e1", "link", Some("Home"), 9222));

    let route = refmap.route("e1").unwrap();
    match route {
        InteractionRoute::AgentBrowser { session, cdp_port, ab_ref, element } => {
            assert_eq!(cdp_port, 9222);
            assert_eq!(ab_ref, "e50");
            assert_eq!(session, "test-app");
            assert_eq!(element.role, "link");
        }
        _ => panic!("Expected AgentBrowser route"),
    }
}

#[test]
fn test_routing_coordinate_ref() {
    let mut refmap = RefMap::new();
    refmap.insert(ElementRef {
        id: "e1".to_string(),
        source: RefSource::Coordinate,
        role: "button".to_string(),
        label: Some("Target".to_string()),
        frame: Some(rect(100.0, 200.0, 50.0, 30.0)),
        ax_path: None,
        ax_actions: None,
        ax_pid: None,
        cdp_node_id: None,
        cdp_backend_node_id: None,
        cdp_port: None,
        ab_ref: None,
        ab_session: None,
    });

    let route = refmap.route("e1").unwrap();
    match route {
        InteractionRoute::Coordinate { frame, .. } => {
            let x = f64::from_bits(frame.x) + f64::from_bits(frame.width) / 2.0;
            let y = f64::from_bits(frame.y) + f64::from_bits(frame.height) / 2.0;
            assert!((x - 125.0).abs() < 0.1);
            assert!((y - 215.0).abs() < 0.1);
        }
        _ => panic!("Expected Coordinate route"),
    }
}

#[test]
fn test_routing_missing_ref() {
    let refmap = RefMap::new();
    assert!(refmap.route("e99").is_err());
}

#[test]
fn test_sorted_entries() {
    let ax_refs = vec![
        make_ax_ref("tmp", "button", Some("B"), 1),
        make_ax_ref("tmp", "link", Some("A"), 1),
    ];
    let cdp_refs = vec![make_cdp_ref("tmp", "textbox", Some("C"), 9222)];
    let refmap = build_merged_refmap(ax_refs, cdp_refs);

    let sorted = refmap.sorted_entries();
    assert_eq!(sorted.len(), 3);
    assert_eq!(sorted[0].id, "e1");
    assert_eq!(sorted[1].id, "e2");
    assert_eq!(sorted[2].id, "e3");
}

#[test]
fn test_refmap_clear() {
    let mut refmap = RefMap::new();
    refmap.insert(make_ax_ref("e1", "button", Some("OK"), 1234));
    assert_eq!(refmap.len(), 1);

    refmap.clear();
    assert!(refmap.is_empty());
    assert!(refmap.resolve("e1").is_none());
}

#[test]
fn test_ax_only_refmap() {
    let refs = vec![
        make_ax_ref("tmp", "button", Some("OK"), 1),
        make_ax_ref("tmp", "textbox", Some("Name"), 1),
    ];
    let refmap = build_ax_refmap(refs);
    assert_eq!(refmap.len(), 2);
    assert_eq!(refmap.resolve("e1").unwrap().source, RefSource::AX);
    assert_eq!(refmap.resolve("e2").unwrap().source, RefSource::AX);
}

#[test]
fn test_cdp_only_refmap() {
    let refs = vec![
        make_cdp_ref("tmp", "link", Some("Home"), 9222),
        make_cdp_ref("tmp", "button", Some("Login"), 9222),
    ];
    let refmap = build_cdp_refmap(refs);
    assert_eq!(refmap.len(), 2);
    assert_eq!(refmap.resolve("e1").unwrap().source, RefSource::CDP);
    assert_eq!(refmap.resolve("e2").unwrap().source, RefSource::CDP);
}

#[test]
fn insert_replaces_same_id() {
    let mut refmap = RefMap::new();
    refmap.insert(make_ax_ref("e1", "button", Some("Old"), 1));
    refmap.insert(make_ax_ref("e1", "button", Some("New"), 1));
    assert_eq!(refmap.len(), 1);
    assert_eq!(refmap.resolve("e1").unwrap().label.as_deref(), Some("New"));
}

#[test]
fn at_prefix_is_transparent() {
    let mut refmap = RefMap::new();
    refmap.insert(make_ax_ref("e7", "link", None, 1));
    assert_eq!(refmap.resolve("@e7").unwrap().id, refmap.resolve("e7").unwrap().id);
    assert!(refmap.resolve("@@e7").is_none());
}

#[test]
fn route_errors_name_the_missing_part() {
    let mut refmap = RefMap::new();
    let mut no_pid = make_ax_ref("e1", "button", None, 1);
    no_pid.ax_pid = None;
    refmap.insert(no_pid);
    let mut no_port = make_cdp_ref("e2", "link", None, 9222);
    no_port.cdp_port = None;
    refmap.insert(no_port);
    let mut no_ab = make_cdp_ref("e3", "link", None, 9222);
    no_ab.ab_ref = None;
    refmap.insert(no_ab);
    let mut no_session = make_cdp_ref("e4", "link", None, 9222);
    no_session.ab_session = None;
    refmap.insert(no_session);
    let mut no_frame = make_ax_ref("e5", "button", None, 1);
    no_frame.source = RefSource::Coordinate;
    no_frame.frame = None;
    refmap.insert(no_frame);
    assert_eq!(refmap.route("e1").err().unwrap(), "AX ref @e1 has no PID");
    assert_eq!(refmap.route("e2").err().unwrap(), "CDP ref @e2 has no port");
    assert_eq!(refmap.route("e3").err().unwrap(), "CDP ref @e3 has no agent-browser ref");
    assert_eq!(refmap.route("e4").err().unwrap(), "CDP ref @e4 has no agent-browser session");
    assert_eq!(refmap.route("e5").err().unwrap(), "Coordinate ref @e5 has no frame");
    assert_eq!(refmap.route("@e9").err().unwrap(), "Ref @@e9 not found");
}

#[test]
fn merged_numbering_starts_at_one_and_counts_up() {
    let refmap = build_merged_refmap(vec![make_ax_ref("x", "a", None, 1)], vec![make_cdp_ref("y", "b", None, 1), make_cdp_ref("z", "c", None, 1)]);
    let sorted = refmap.sorted_entries();
    let ids: Vec<&str> = sorted.iter().map(|e| e.id.as_str()).collect();
    assert_eq!(ids, vec!["e1", "e2", "e3"]);
    assert!(refmap.resolve("e0").is_none());
    assert!(refmap.resolve("e4").is_none());
}

#[test]
fn sorted_entries_orders_numerically() {
    let mut refmap = RefMap::new();
    refmap.insert(make_ax_ref("e10", "a", None, 1));
    refmap.insert(make_ax_ref("e2", "b", None, 1));
    refmap.insert(make_ax_ref("e1", "c", None, 1));
    let sorted = refmap.sorted_entries();
    let ids: Vec<&str> = sorted.iter().map(|e| e.id.as_str()).collect();
    assert_eq!(ids, vec!["e1", "e2", "e10"]);
}

#[test]
fn ref_ids_format_and_read_back() {
    assert_eq!(format_ref_id(0), "e0");
    assert_eq!(format_ref_id(123), "e123");
    assert_eq!(ref_number_of("e123"), 123);
    assert_eq!(ref_number_of("x5"), 0);
    assert_eq!(ref_number_of("e"), 0);
    assert_eq!(ref_number_of("ee5"), 0);
}
