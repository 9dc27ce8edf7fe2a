use agent_computer::snapshot::{
    find_child_by_segment, format_snapshot_text, indent_spaces, is_context_role, node_has_interactive_descendants,
    build_node, sibling_indices, within_traversal, AXNode, SnapshotProfile,
};
use agent_computer::types::{PathSegment, Rect};
use agent_computer::workspace::get_frontmost_app;

fn leaf(role: &str, title: Option<&str>, interactive: bool, depth: usize) -> AXNode {
    AXNode {
        role: role.to_string(),
        title: title.map(|t| t.to_string()),
        description: None,
        value: None,
        frame: None,
        actions: vec![],
        is_interactive: interactive,
        children: vec![],
        depth,
        path_segment: PathSegment { role: role.to_string(), index: 0 },
    }
}

#[test]
fn test_format_snapshot_basic() {
    let node = AXNode {
        role: "AXButton".to_string(),
        title: Some("OK".to_string()),
        description: None,
        value: None,
        frame: Some(Rect { x: 100.0f64.to_bits(), y: 200.0f64.to_bits(), width: 80.0f64.to_bits(), height: 30.0f64.to_bits() }),
        actions: vec!["AXPress".to_string()],
        is_interactive: true,
        children: vec![],
        depth: 0,
        path_segment: PathSegment { role: "AXButton".to_string(), index: 0 },
    };

    let (text, refs) = format_snapshot_text(&[node], "TestApp", &Some("Main Window".to_string()), true, 1234);

    assert!(text.contains("[TestApp — Main Window]"));
    assert!(text.contains("@e1 AXButton \"OK\""));
    assert_eq!(refs.len(), 1);
    assert_eq!(refs[0].id, "e1");
    assert_eq!(refs[0].role, "AXButton");
    assert_eq!(refs[0].label, Some("OK".to_string()));
    assert_eq!(refs[0].ax_pid, Some(1234));
}

#[test]
fn test_format_snapshot_label_truncation() {
    let long_label = "A".repeat(80);
    let node = AXNode {
        role: "AXTextField".to_string(),
        title: Some(long_label),
        description: None,
        value: None,
        frame: None,
        actions: vec![],
        is_interactive: true,
        children: vec![],
        depth: 0,
        path_segment: PathSegment { role: "AXTextField".to_string(), index: 0 },
    };

    let (text, _) = format_snapshot_text(&[node], "App", &None, true, 1);
    assert!(text.contains("..."));
}

#[test]
fn test_format_snapshot_context_roles() {
    let child = leaf("AXButton", Some("Click"), true, 1);
    let mut parent = leaf("AXToolbar", Some("Main Toolbar"), false, 0);
    parent.children = vec![child];

    let (text, refs) = format_snapshot_text(&[parent], "App", &None, false, 1);
    assert!(text.contains("AXToolbar \"Main Toolbar\""));
    assert!(text.contains("@e1 AXButton \"Click\""));
    assert_eq!(refs.len(), 1);
}

#[test]
fn test_format_snapshot_non_interactive_skip() {
    let node = leaf("AXStaticText", Some("Just text"), false, 0);
    let (text, refs) = format_snapshot_text(&[node], "App", &None, true, 1);
    assert!(!text.contains("AXStaticText"));
    assert_eq!(refs.len(), 0);
}

#[test]
fn test_get_frontmost_app() {
    let result = get_frontmost_app(|| None, || Some(("Finder".to_string(), 321)), || Some(("Dock".to_string(), 1)));
    if let Some((name, pid)) = result {
        assert!(!name.is_empty());
        assert!(pid > 0);
    }
}

#[test]
fn frontmost_app_prefers_earlier_sources() {
    assert_eq!(
        get_frontmost_app(|| Some(("Safari".to_string(), 10)), || Some(("Finder".to_string(), 20)), || None),
        Some(("Safari".to_string(), 10))
    );
    assert_eq!(get_frontmost_app(|| None, || None, || Some(("Dock".to_string(), 3))), Some(("Dock".to_string(), 3)));
    assert_eq!(get_frontmost_app(|| None, || None, || None), None);
}

#[test]
fn frontmost_app_skips_answers_without_name_or_pid() {
    assert_eq!(
        get_frontmost_app(|| Some((String::new(), 5)), || Some(("Finder".to_string(), 0)), || Some(("Dock".to_string(), 4))),
        Some(("Dock".to_string(), 4))
    );
    assert_eq!(
        get_frontmost_app(|| Some(("Mail".to_string(), -1)), || Some(("Notes".to_string(), 8)), || None),
        Some(("Notes".to_string(), 8))
    );
    assert_eq!(get_frontmost_app(|| Some((String::new(), 0)), || None, || Some(("X".to_string(), 0))), None);
}

#[test]
fn snapshot_text_exact_layout() {
    let mut toolbar = leaf("AXToolbar", Some("Tools"), false, 0);
    toolbar.children = vec![leaf("AXButton", Some("Back"), true, 1), leaf("AXStaticText", Some("x"), false, 1)];
    let field = AXNode { description: Some("Search".to_string()), ..leaf("AXTextField", None, true, 0) };
    let (text, refs) = format_snapshot_text(&[toolbar, field], "Safari", &None, false, 7);
    assert_eq!(text, "[Safari]\n  AXToolbar \"Tools\"\n    @e1 AXButton \"Back\"\n  @e2 AXTextField \"Search\"\n");
    assert_eq!(refs.len(), 2);
    assert_eq!(refs[1].id, "e2");
    assert_eq!(refs[1].label.as_deref(), Some("Search"));
    let path = refs[0].ax_path.as_ref().unwrap();
    assert_eq!(path.len(), 2);
    assert_eq!(path[0].role, "AXToolbar");
    assert_eq!(path[1].role, "AXButton");
}

#[test]
fn snapshot_interactive_only_hides_context_and_indent() {
    let mut toolbar = leaf("AXToolbar", Some("Tools"), false, 0);
    toolbar.children = vec![leaf("AXButton", Some("Back"), true, 1)];
    let (text, refs) = format_snapshot_text(&[toolbar], "App", &Some("W".to_string()), true, 1);
    assert_eq!(text, "[App — W]\n  @e1 AXButton \"Back\"\n");
    assert_eq!(refs.len(), 1);
}

#[test]
fn truncation_keeps_fifty_seven_bytes() {
    let node = leaf("AXButton", Some(&"B".repeat(61)), true, 0);
    let (text, _) = format_snapshot_text(&[node], "App", &None, true, 1);
    assert!(text.contains(&format!("\"{}...\"", "B".repeat(57))));
    let short = leaf("AXButton", Some(&"C".repeat(60)), true, 0);
    let (text2, _) = format_snapshot_text(&[short], "App", &None, true, 1);
    assert!(text2.contains(&format!("\"{}\"", "C".repeat(60))));
}

#[test]
fn interactive_descendants_and_context_roles() {
    let mut group = leaf("AXGroup", None, false, 0);
    assert!(!node_has_interactive_descendants(&group));
    let mut inner = leaf("AXGroup", None, false, 1);
    inner.children = vec![leaf("AXLink", None, true, 2)];
    group.children = vec![inner];
    assert!(node_has_interactive_descendants(&group));
    assert!(is_context_role("AXWebArea"));
    assert!(!is_context_role("AXButton"));
    assert_eq!(indent_spaces(3), "      ");
}

#[test]
fn path_indices_count_same_role_siblings() {
    let roles: Vec<String> = ["AXButton", "AXGroup", "AXButton", "AXButton", "AXGroup"].iter().map(|s| s.to_string()).collect();
    assert_eq!(sibling_indices(&roles), vec![0, 0, 1, 2, 1]);
    let seg = PathSegment { role: "AXButton".to_string(), index: 2 };
    assert_eq!(find_child_by_segment(&roles, &seg), Some(3));
    let missing = PathSegment { role: "AXButton".to_string(), index: 3 };
    assert_eq!(find_child_by_segment(&roles, &missing), None);
    for (i, idx) in sibling_indices(&roles).iter().enumerate() {
        let seg = PathSegment { role: roles[i].clone(), index: *idx };
        assert_eq!(find_child_by_segment(&roles, &seg), Some(i));
    }
}

#[test]
fn profile_records_per_depth() {
    let mut p = SnapshotProfile::new();
    p.record(2, 1_000);
    p.record(2, 500);
    p.record(0, 10);
    p.count_queries(4);
    assert_eq!(p.depth_stats.len(), 3);
    assert_eq!(p.depth_stats[2].element_count, 2);
    assert_eq!(p.depth_stats[2].duration, 1_500);
    assert_eq!(p.depth_stats[1].element_count, 0);
    assert_eq!(p.depth_stats[0].depth, 0);
    assert_eq!(p.total_elements, 3);
    assert_eq!(p.total_ax_queries, 4);
}

#[test]
fn profile_stays_numbered_and_summed() {
    let mut p = SnapshotProfile::new();
    for (depth, duration) in [(3usize, 7u128), (1, 2), (3, 1), (5, 4), (0, 9)] {
        p.record(depth, duration);
        p.ensure_depth(depth + 2);
        for (i, s) in p.depth_stats.iter().enumerate() {
            assert_eq!(s.depth, i);
        }
        let sum: usize = p.depth_stats.iter().map(|s| s.element_count).sum();
        assert_eq!(p.total_elements, sum);
    }
    assert_eq!(p.depth_stats.len(), 8);
    assert_eq!(p.depth_stats[3].element_count, 2);
    assert_eq!(p.depth_stats[3].duration, 8);
    assert_eq!(p.total_elements, 5);
}

#[test]
fn traversal_cut_and_node_building() {
    assert!(within_traversal(false, 3, 3));
    assert!(!within_traversal(false, 4, 3));
    assert!(!within_traversal(true, 0, 3));
    let button = build_node(
        Some("AXButton".to_string()),
        Some("OK".to_string()),
        None,
        Some("pressed".to_string()),
        None,
        vec!["AXPress".to_string()],
        vec![],
        2,
        1,
    );
    assert!(button.is_interactive);
    assert_eq!(button.value.as_deref(), Some("pressed"));
    assert_eq!(button.path_segment.role, "AXButton");
    assert_eq!(button.path_segment.index, 1);
    assert_eq!(button.depth, 2);
    let group = build_node(None, None, Some("box".to_string()), Some("v".to_string()), None, vec![], vec![button], 1, 0);
    assert_eq!(group.role, "AXUnknown");
    assert!(!group.is_interactive);
    assert_eq!(group.value, None);
    assert_eq!(group.path_segment.role, "AXUnknown");
    assert_eq!(group.description.as_deref(), Some("box"));
    assert_eq!(group.children.len(), 1);
}
