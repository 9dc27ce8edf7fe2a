use agent_computer::daemon::{
    answer_get, cdp_launch_flag, default_screenshot_args, default_snapshot_args, fill_data, launch_failure,
    open_failure, parse_command, placeholder_snapshot, press_data, quit_script, relaunch_failure, resolve_target, scroll_data,
    type_data, unreadable_args, CommandKind, DaemonState, GetAnswer,
};
use agent_computer::protocol::{FillArgs, GetArgs, PressArgs, ScrollArgs, TypeArgs};
use agent_computer::refmap::RefMap;
use agent_computer::types::{ElementRef, RefSource};

fn element(id: &str, label: Option<&str>) -> ElementRef {
    ElementRef {
        id: id.to_string(),
        source: RefSource::AX,
        role: "AXButton".to_string(),
        label: label.map(|s| s.to_string()),
        frame: None,
        ax_path: None,
        ax_actions: None,
        ax_pid: Some(1),
        cdp_node_id: None,
        cdp_backend_node_id: None,
        cdp_port: None,
        ab_ref: None,
        ab_session: None,
    }
}

fn get(what: &str, r: Option<&str>) -> GetArgs {
    GetArgs { what: what.to_string(), ref_id: r.map(|s| s.to_string()), app: None }
}

#[test]
fn unknown_command_is_refused() {
    let e = parse_command("dance").err().unwrap();
    assert_eq!(e.code, "INVALID_COMMAND");
    assert_eq!(e.message, "Invalid command: Unknown command: 'dance'");
}

#[test]
fn empty_command_is_refused() {
    let e = parse_command("").err().unwrap();
    assert_eq!(e.code, "INVALID_COMMAND");
    assert_eq!(e.message, "Invalid command: Unknown command: ''");
}

#[test]
fn known_commands() {
    assert!(matches!(parse_command("snapshot"), Ok(CommandKind::Snapshot)));
    assert!(matches!(parse_command("status"), Ok(CommandKind::Status)));
    assert!(matches!(parse_command("get"), Ok(CommandKind::Get)));
    assert!(parse_command("Snapshot").is_err());
}

#[test]
fn unreadable_arguments() {
    assert!(unreadable_args(CommandKind::Snapshot).is_none());
    assert!(unreadable_args(CommandKind::Screenshot).is_none());
    assert!(unreadable_args(CommandKind::Status).is_none());
    assert_eq!(
        unreadable_args(CommandKind::Click).unwrap().message,
        "Invalid command: click requires args with ref or x/y"
    );
    assert_eq!(unreadable_args(CommandKind::Get).unwrap().message, "Invalid command: get requires args with what");
    let d = default_snapshot_args();
    assert!(d.interactive && !d.compact && d.depth.is_none());
    assert!(!default_screenshot_args().full);
}

#[test]
fn command_answers() {
    let s = placeholder_snapshot();
    assert_eq!(s.text, "[No snapshot engine available yet]");
    assert_eq!(s.ref_count, 0);
    assert_eq!(s.app, "Unknown");
    let f = fill_data(FillArgs { ref_id: "e1".to_string(), text: "hi".to_string(), app: None });
    assert_eq!((f.ref_id.as_str(), f.text.as_str()), ("e1", "hi"));
    let t = type_data(TypeArgs { ref_id: None, text: "yo".to_string(), app: None });
    assert!(t.ref_id.is_none());
    let p = press_data(PressArgs { key: "escape".to_string(), modifiers: None, app: None });
    assert!(p.modifiers.is_empty());
    let q = press_data(PressArgs { key: "k".to_string(), modifiers: Some(vec!["cmd".to_string()]), app: None });
    assert_eq!(q.modifiers, vec!["cmd".to_string()]);
    assert_eq!(scroll_data(ScrollArgs { direction: "down".to_string(), amount: None, ref_id: None, app: None }).amount, 300);
    assert_eq!(scroll_data(ScrollArgs { direction: "up".to_string(), amount: Some(5), ref_id: None, app: None }).amount, 5);
}

#[test]
fn get_text_without_snapshot() {
    let refs = RefMap::new();
    let e = answer_get(&get("text", Some("@e1")), &refs).err().unwrap();
    assert_eq!(e.code, "NO_REF_MAP");
}

#[test]
fn get_text_reads_labels() {
    let mut refs = RefMap::new();
    refs.insert(element("e1", Some("Save")));
    refs.insert(element("e2", None));
    match answer_get(&get("TEXT", Some("@e1")), &refs) {
        Ok(GetAnswer::Text(d)) => {
            assert_eq!(d.ref_id.as_deref(), Some("@e1"));
            assert_eq!(d.text, "Save");
        }
        _ => panic!("Expected text"),
    }
    match answer_get(&get("text", Some("e2")), &refs) {
        Ok(GetAnswer::Text(d)) => assert_eq!(d.text, ""),
        _ => panic!("Expected text"),
    }
    let missing = answer_get(&get("text", Some("@e9")), &refs).err().unwrap();
    assert_eq!(missing.code, "REF_NOT_FOUND");
    assert_eq!(missing.message, "Element @@e9 not found. The UI may have changed.");
    let no_ref = answer_get(&get("text", None), &refs).err().unwrap();
    assert_eq!(no_ref.message, "Invalid command: 'get text' requires a @ref");
    assert!(matches!(answer_get(&get("Apps", None), &refs), Ok(GetAnswer::Apps)));
    let other = answer_get(&get("Windows", None), &refs).err().unwrap();
    assert_eq!(other.message, "Invalid command: Unknown get target: 'Windows'. Valid: apps, text");
}

#[test]
fn state_tracks_launches() {
    let mut state = DaemonState::new();
    assert_eq!(state.ref_map_count(), 0);
    assert_eq!(state.active_cdp_connections(), 0);
    state.record_cdp_launch("Slack", 9300);
    state.record_cdp_launch("Slack", 9301);
    state.record_cdp_launch("Spotify", 9302);
    assert_eq!(state.active_cdp_connections(), 2);
    assert_eq!(state.cdp_connections.get("Slack"), Some(9301));
    assert_eq!(state.port_assignments.get("Spotify"), Some(9302));
    state.ref_map.insert(element("e1", None));
    assert_eq!(state.ref_map_count(), 1);
}

#[test]
fn launch_texts() {
    assert_eq!(cdp_launch_flag(9222), "--remote-debugging-port=9222");
    assert_eq!(quit_script("Slack"), "tell application \"Slack\" to quit");
    assert_eq!(relaunch_failure("Slack", "no").message, "Daemon error: Failed to relaunch Slack with CDP: no");
    assert_eq!(launch_failure("Slack", "io").message, "Daemon error: Failed to launch Slack with CDP: io");
    assert_eq!(open_failure("x").code, "DAEMON_ERROR");
}

#[test]
fn fill_and_click_targets_resolve_against_the_ref_map() {
    let empty = RefMap::new();
    let e = resolve_target(&empty, "@e1").err().unwrap();
    assert_eq!(e.code, "NO_REF_MAP");
    assert_eq!(e.message, "No element references available.");
    let mut refs = RefMap::new();
    refs.insert(element("e1", Some("Save")));
    refs.insert(element("e2", None));
    assert_eq!(resolve_target(&refs, "@e1").ok().unwrap().label.as_deref(), Some("Save"));
    assert_eq!(resolve_target(&refs, "e2").ok().unwrap().id, "e2");
    let missing = resolve_target(&refs, "@e9999").err().unwrap();
    assert_eq!(missing.code, "REF_NOT_FOUND");
    assert_eq!(missing.message, "Element @@e9999 not found. The UI may have changed.");
}
