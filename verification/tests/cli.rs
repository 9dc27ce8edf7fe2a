use agent_computer::cli::{
    click_target, get_target, open_request, parse_key_combo, parse_ref, press_request, require_ref, scroll_direction,
    split_char, type_target, ClickTarget,
};
use agent_computer::connection::ConnectionError;

#[test]
fn test_parse_ref_valid() {
    assert_eq!(parse_ref("@e1"), Some("e1".to_string()));
    assert_eq!(parse_ref("@e42"), Some("e42".to_string()));
    assert_eq!(parse_ref("e3"), Some("e3".to_string()));
}

#[test]
fn test_parse_ref_invalid() {
    assert_eq!(parse_ref("@f1"), None);
    assert_eq!(parse_ref("e"), None);
    assert_eq!(parse_ref("hello"), None);
    assert_eq!(parse_ref("@eabc"), None);
}

#[test]
fn test_parse_key_combo_simple() {
    let (key, mods) = parse_key_combo("enter");
    assert_eq!(key, "enter");
    assert!(mods.is_empty());
}

#[test]
fn test_parse_key_combo_with_modifiers() {
    let (key, mods) = parse_key_combo("cmd+shift+s");
    assert_eq!(key, "s");
    assert_eq!(mods, vec!["cmd", "shift"]);
}

#[test]
fn test_parse_key_combo_normalize() {
    let (key, mods) = parse_key_combo("command+option+a");
    assert_eq!(key, "a");
    assert_eq!(mods, vec!["cmd", "alt"]);
}

#[test]
fn key_combo_edge_cases() {
    let (key, mods) = parse_key_combo("Ctrl+Control+Meta");
    assert_eq!(key, "meta");
    assert_eq!(mods, vec!["ctrl", "ctrl"]);
    let (key, mods) = parse_key_combo("cmd+shift");
    assert_eq!(key, "shift");
    assert_eq!(mods, vec!["cmd", "shift"]);
    let (key, mods) = parse_key_combo("CMD+Shift+Tab");
    assert_eq!(key, "tab");
    assert_eq!(mods, vec!["cmd", "shift"]);
    let (key, mods) = parse_key_combo("a+b");
    assert_eq!(key, "a+b");
    assert!(mods.is_empty());
    let (key, mods) = parse_key_combo("alt+");
    assert_eq!(key, "");
    assert_eq!(mods, vec!["alt"]);
}

#[test]
fn ref_parsing_strips_one_at_only() {
    assert_eq!(parse_ref("@@e1"), None);
    assert_eq!(parse_ref("e007"), Some("e007".to_string()));
    assert_eq!(parse_ref("@e1x"), None);
    assert_eq!(parse_ref(""), None);
}

#[test]
fn split_keeps_empty_pieces() {
    assert_eq!(split_char("a++b", '+'), vec!["a", "", "b"]);
    assert_eq!(split_char("", '+'), vec![""]);
}

#[test]
fn scroll_direction_checks() {
    assert_eq!(scroll_direction("Down"), Ok("down".to_string()));
    assert_eq!(scroll_direction("LEFT"), Ok("left".to_string()));
    assert_eq!(
        scroll_direction("sideways"),
        Err("Invalid direction 'sideways'. Use: up, down, left, right.".to_string())
    );
}

#[test]
fn get_targets_are_checked() {
    assert_eq!(get_target("Text"), Ok("text".to_string()));
    assert_eq!(get_target("windows"), Ok("windows".to_string()));
    assert_eq!(
        get_target("pixels"),
        Err("Invalid target 'pixels'. Use: text, title, url, apps, windows.".to_string())
    );
}

#[test]
fn type_target_with_ref() {
    let (r, text) = type_target("@e4", Some("hello")).unwrap();
    assert_eq!(r, Some("e4".to_string()));
    assert_eq!(text, "hello");
    assert_eq!(
        type_target("field", Some("hello")).err().unwrap(),
        "Invalid ref 'field'. Use @e<number> format (e.g. @e4)."
    );
}

#[test]
fn type_target_text_only() {
    let (r, text) = type_target("hello world", None).unwrap();
    assert_eq!(r, None);
    assert_eq!(text, "hello world");
}

#[test]
fn click_targets() {
    assert!(matches!(click_target("100", true, true), Ok(ClickTarget::Coordinates)));
    assert_eq!(click_target("abc", true, false).err().unwrap(), "Invalid X coordinate 'abc'");
    match click_target("@e3", false, false) {
        Ok(ClickTarget::Ref(r)) => assert_eq!(r, "e3"),
        _ => panic!("Expected a ref"),
    }
    assert_eq!(
        click_target("100", false, true).err().unwrap(),
        "Click by coordinates requires both X and Y values."
    );
    assert_eq!(
        click_target("button", false, false).err().unwrap(),
        "Invalid ref 'button'. Use @e<number> format (e.g. @e3) or provide X Y coordinates."
    );
}

#[test]
fn fill_and_get_refs_are_checked() {
    assert_eq!(require_ref("@e4", "@e4"), Ok("e4".to_string()));
    assert_eq!(
        require_ref("x", "@e3"),
        Err("Invalid ref 'x'. Use @e<number> format (e.g. @e3).".to_string())
    );
}

#[test]
fn press_and_open_requests() {
    let p = press_request("cmd+s", None);
    assert_eq!(p.key, "s");
    assert_eq!(p.modifiers, Some(vec!["cmd".to_string()]));
    let q = press_request("escape", Some("Finder".to_string()));
    assert_eq!(q.key, "escape");
    assert_eq!(q.modifiers, None);
    assert_eq!(q.app.as_deref(), Some("Finder"));
    let o = open_request("Slack".to_string(), true, false);
    assert!(o.with_cdp && o.background);
    let o2 = open_request("Notes".to_string(), false, false);
    assert!(!o2.background);
}

#[test]
fn connection_error_messages() {
    assert_eq!(
        ConnectionError::ConnectionFailed("refused".to_string()).message(),
        "Failed to connect to daemon socket: refused"
    );
    assert_eq!(ConnectionError::ConnectionClosed.message(), "Daemon closed the connection unexpectedly.");
    assert!(ConnectionError::DaemonNotFound.message().starts_with("Could not find agent-desktop-daemon binary."));
    assert!(ConnectionError::DaemonStartTimeout.message().starts_with("Daemon did not start within 5 seconds."));
    assert_eq!(ConnectionError::WriteFailed("x".to_string()).message(), "Failed to send data to daemon: x");
    assert_eq!(ConnectionError::EncodingFailed("y".to_string()).message(), "Failed to encode request as JSON: y");
    assert_eq!(ConnectionError::DecodingFailed("z".to_string()).message(), "Failed to decode response from daemon: z");
}
