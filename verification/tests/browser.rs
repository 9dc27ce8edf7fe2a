use agent_computer::browser::{
    action_outcome, binary_name, bundled_binary_path, click_args, close_args, common_binary_paths, connect_args,
    element_number_of, elements_from_refs, failure_message, fill_args, get_args, invocation, locate_binary, package_url,
    parse_failure_message, press_args, ref_arg, scroll_args, snapshot_args, snapshot_result, type_args, wait_args,
    AgentBrowserResponse, BridgeAction, BridgeData, BrowserBridge, PlatformError, RefInfo, SnapshotJsonData,
    AGENT_BROWSER_VERSION, BRIDGE_NOT_FOUND,
};
use agent_computer::sessions::SessionTable;

fn info(name: Option<&str>, role: Option<&str>) -> RefInfo {
    RefInfo { name: name.map(|s| s.to_string()), role: role.map(|s| s.to_string()) }
}

fn response(success: bool, json: Option<&str>, text: Option<&str>, error: Option<&str>) -> AgentBrowserResponse {
    AgentBrowserResponse {
        success,
        data: json.map(|j| BridgeData { json: j.to_string(), text: text.map(|t| t.to_string()) }),
        error: error.map(|e| e.to_string()),
    }
}

#[test]
fn test_snapshot_result_from_json() {
    let refs = vec![
        ("e14".to_string(), info(Some("Home"), Some("button"))),
        ("e32".to_string(), info(Some("What do you want to play?"), Some("combobox"))),
        ("e8".to_string(), info(Some("Main"), Some("navigation"))),
    ];
    let elements = elements_from_refs(&refs);

    assert_eq!(elements.len(), 3);
    assert_eq!(elements[0].ref_id, "e8");
    assert_eq!(elements[0].role, "navigation");
    assert_eq!(elements[0].label.as_deref(), Some("Main"));

    assert_eq!(elements[1].ref_id, "e14");
    assert_eq!(elements[1].role, "button");
    assert_eq!(elements[1].label.as_deref(), Some("Home"));

    assert_eq!(elements[2].ref_id, "e32");
    assert_eq!(elements[2].role, "combobox");
}

#[test]
fn test_parse_snapshot_json_response() {
    let data = SnapshotJsonData {
        origin: Some("https://example.com".to_string()),
        refs: Some(vec![
            ("e1".to_string(), info(Some("Home"), Some("button"))),
            ("e2".to_string(), info(Some("Search"), Some("textbox"))),
            ("e3".to_string(), info(None, Some("separator"))),
        ]),
        snapshot: Some("- button \"Home\" [ref=e1]".to_string()),
    };
    let result = snapshot_result(true, None, Some(Ok(data))).ok().unwrap();
    assert_eq!(result.origin.as_deref(), Some("https://example.com"));
    assert!(result.snapshot_text.is_some());
    assert_eq!(result.elements.len(), 3);
    assert_eq!(result.elements[0].label.as_deref(), Some("Home"));
    assert_eq!(result.elements[0].role, "button");
    assert!(result.elements[2].label.is_none());
    assert_eq!(result.elements[2].role, "separator");
}

#[test]
fn test_parse_action_json_response() {
    let out = action_outcome(BridgeAction::Click, response(true, Some("{\"clicked\":\"@e5\"}"), None, None));
    assert_eq!(out, Ok("{\"clicked\":\"@e5\"}".to_string()));
}

#[test]
fn test_parse_error_json_response() {
    let out = action_outcome(BridgeAction::Click, response(false, None, None, Some("Element not found: @e99")));
    assert_eq!(out, Err("Element not found: @e99".to_string()));
}

#[test]
fn test_bridge_not_available() {
    let bridge = BrowserBridge { binary_path: None, active_sessions: SessionTable::new() };
    assert!(!bridge.is_available());
}

#[test]
fn test_execute_not_available() {
    let bridge = BrowserBridge { binary_path: None, active_sessions: SessionTable::new() };
    let result = bridge.binary_for_call();
    assert!(result.is_err());
    assert!(result.unwrap_err().contains("agent-browser not found"));
}

#[test]
fn test_bridge_detect() {
    let bridge = BrowserBridge::new(None);
    let _ = bridge.is_available();
    let found = BrowserBridge::new(Some("/usr/local/bin/agent-browser".to_string()));
    assert!(found.is_available());
    assert_eq!(found.binary_path().map(|p| p.as_str()), Some("/usr/local/bin/agent-browser"));
}

#[test]
fn test_session_tracking() {
    let mut bridge = BrowserBridge { binary_path: None, active_sessions: SessionTable::new() };

    bridge.active_sessions.insert("spotify".to_string(), 9371);
    bridge.active_sessions.insert("chrome".to_string(), 9222);
    assert_eq!(bridge.active_sessions.len(), 2);

    bridge.active_sessions.remove("spotify");
    assert_eq!(bridge.active_sessions.len(), 1);
    assert!(!bridge.active_sessions.contains_key("spotify"));
    assert!(bridge.active_sessions.contains_key("chrome"));
}

#[test]
fn elements_sort_numerically_and_default_role() {
    let refs = vec![
        ("e10".to_string(), info(None, None)),
        ("x".to_string(), info(Some("No number"), Some("link"))),
        ("e2".to_string(), info(Some("Two"), Some("button"))),
        ("ee3".to_string(), info(None, Some("tab"))),
    ];
    let elements = elements_from_refs(&refs);
    let ids: Vec<&str> = elements.iter().map(|e| e.ref_id.as_str()).collect();
    assert_eq!(ids, vec!["x", "e2", "ee3", "e10"]);
    assert_eq!(elements[3].role, "unknown");
    assert_eq!(element_number_of("ee3"), 3);
    assert_eq!(element_number_of("e+4"), 4);
    assert_eq!(element_number_of("x"), 0);
}

#[test]
fn snapshot_result_errors() {
    assert_eq!(snapshot_result(false, None, None).err().unwrap(), "Snapshot failed");
    assert_eq!(snapshot_result(false, Some("boom".to_string()), None).err().unwrap(), "boom");
    assert_eq!(snapshot_result(true, None, None).err().unwrap(), "No data in snapshot response");
    assert_eq!(
        snapshot_result(true, None, Some(Err("missing field".to_string()))).err().unwrap(),
        "Failed to parse snapshot data: missing field"
    );
    let empty = snapshot_result(true, None, Some(Ok(SnapshotJsonData { origin: None, refs: None, snapshot: None })))
        .ok()
        .unwrap();
    assert!(empty.elements.is_empty());
}

#[test]
fn outcomes_use_payload_or_fallback() {
    assert_eq!(action_outcome(BridgeAction::Fill, response(true, None, None, None)), Ok(String::new()));
    assert_eq!(action_outcome(BridgeAction::Press, response(false, None, None, None)), Err("Press failed".to_string()));
    assert_eq!(action_outcome(BridgeAction::Wait, response(false, None, None, None)), Err("Wait failed".to_string()));
    assert_eq!(
        action_outcome(BridgeAction::Get, response(true, Some("\"Hello\""), Some("Hello"), None)),
        Ok("Hello".to_string())
    );
    assert_eq!(
        action_outcome(BridgeAction::Click, response(true, Some("\"Hello\""), Some("Hello"), None)),
        Ok("\"Hello\"".to_string())
    );
    assert_eq!(action_outcome(BridgeAction::Get, response(true, Some("42"), None, None)), Ok("42".to_string()));
}

#[test]
fn command_lines() {
    let args = snapshot_args(true, Some("#main"));
    assert_eq!(args, vec!["snapshot", "-i", "-s", "#main"]);
    assert_eq!(snapshot_args(false, None), vec!["snapshot"]);
    let full = invocation("spotify", Some(9371), &args);
    assert_eq!(full, vec!["--session", "spotify", "--cdp", "9371", "--json", "snapshot", "-i", "-s", "#main"]);
    assert_eq!(invocation("s", None, &close_args()), vec!["--session", "s", "--json", "close"]);
    assert_eq!(click_args("e5"), vec!["click", "@e5"]);
    assert_eq!(click_args("@e5"), vec!["click", "@e5"]);
    assert_eq!(fill_args("e1", "hi"), vec!["fill", "@e1", "hi"]);
    assert_eq!(type_args("e1", "hi"), vec!["type", "@e1", "hi"]);
    assert_eq!(press_args("Enter"), vec!["press", "Enter"]);
    assert_eq!(scroll_args("down", -300), vec!["scroll", "down", "-300"]);
    assert_eq!(scroll_args("up", 0), vec!["scroll", "up", "0"]);
    assert_eq!(wait_args(&vec!["--load".to_string(), "networkidle".to_string()]), vec!["wait", "--load", "networkidle"]);
    assert_eq!(get_args("text", Some("e3")), vec!["get", "text", "@e3"]);
    assert_eq!(get_args("url", None), vec!["get", "url"]);
    assert_eq!(connect_args(9222), vec!["connect", "9222"]);
    assert_eq!(ref_arg("@x"), "@x");
}

#[test]
fn failure_texts() {
    assert_eq!(failure_message(Some("json".to_string()), "out".to_string(), "err".to_string()), "json");
    assert_eq!(failure_message(None, "out".to_string(), "err".to_string()), "err");
    assert_eq!(failure_message(None, "out".to_string(), String::new()), "out");
    assert_eq!(
        parse_failure_message("eof", "xyz"),
        "Failed to parse agent-browser JSON response: eof — raw output: xyz"
    );
    assert_eq!(BRIDGE_NOT_FOUND, "agent-browser not found. Install with: npm install -g agent-browser");
}

#[test]
fn connect_and_close_track_sessions() {
    let mut bridge = BrowserBridge::new(Some("/bin/ab".to_string()));
    assert_eq!(bridge.finish_connect("slack", 9300, Ok(response(true, None, None, None))), Ok(()));
    assert_eq!(bridge.active_sessions.get("slack"), Some(9300));
    assert_eq!(
        bridge.finish_connect("zoom", 9301, Ok(response(false, None, None, None))),
        Err("Connect failed".to_string())
    );
    assert!(!bridge.active_sessions.contains_key("zoom"));
    assert_eq!(bridge.finish_connect("x", 1, Err("timed out".to_string())), Err("timed out".to_string()));
    assert_eq!(bridge.session_names(), vec!["slack".to_string()]);
    assert_eq!(
        bridge.finish_close("slack", Ok(response(false, None, None, Some("gone")))),
        Err("gone".to_string())
    );
    assert!(bridge.active_sessions.is_empty());
    assert_eq!(bridge.finish_close("never", Ok(response(true, None, None, None))), Ok(()));
}

#[test]
fn install_locations() {
    assert_eq!(binary_name("macos", "aarch64"), Ok("agent-browser-darwin-arm64".to_string()));
    assert_eq!(binary_name("linux", "x86_64"), Ok("agent-browser-linux-x64".to_string()));
    assert_eq!(binary_name("windows", "x86_64"), Err(PlatformError::UnsupportedOs));
    assert_eq!(binary_name("linux", "riscv64"), Err(PlatformError::UnsupportedArch));
    assert_eq!(
        package_url(AGENT_BROWSER_VERSION),
        "https://registry.npmjs.org/agent-browser/-/agent-browser-0.22.1.tgz"
    );
    assert_eq!(bundled_binary_path("/Users/a"), "/Users/a/.agent-computer/bin/agent-browser");
    assert_eq!(
        common_binary_paths("/Users/a"),
        vec![
            "/Users/a/.nvm/versions/node/v24.14.0/bin/agent-browser",
            "/usr/local/bin/agent-browser",
            "/opt/homebrew/bin/agent-browser",
            "/Users/a/.npm-global/bin/agent-browser",
        ]
    );
}

#[test]
fn binary_search_order() {
    let nvm = vec!["/Users/u/.nvm/versions/node/v20.1.0".to_string()];
    let only = |want: &'static str| move |p: &str| p == want;
    assert_eq!(
        locate_binary("/Users/u", Some("/x/bin/agent-browser".to_string()), &nvm, &only("/Users/u/.agent-computer/bin/agent-browser")),
        Some("/Users/u/.agent-computer/bin/agent-browser".to_string())
    );
    assert_eq!(
        locate_binary("/Users/u", Some("/x/bin/agent-browser".to_string()), &nvm, &|p: &str| p != "/Users/u/.agent-computer/bin/agent-browser"),
        Some("/x/bin/agent-browser".to_string())
    );
    assert_eq!(
        locate_binary("/Users/u", Some(String::new()), &nvm, &only("")),
        None
    );
    assert_eq!(
        locate_binary("/Users/u", None, &nvm, &|p: &str| p.starts_with("/opt") || p.contains("npm-global")),
        Some("/opt/homebrew/bin/agent-browser".to_string())
    );
    assert_eq!(
        locate_binary("/Users/u", None, &nvm, &only("/Users/u/.nvm/versions/node/v20.1.0/bin/agent-browser")),
        Some("/Users/u/.nvm/versions/node/v20.1.0/bin/agent-browser".to_string())
    );
    assert_eq!(locate_binary("/Users/u", None, &vec![], &|_p: &str| false), None);
}
