use agent_computer::errors::ErrorInfo;
use agent_computer::output::{
    describe_click, describe_error, describe_fill, describe_get_apps, describe_get_text, describe_local_error,
    describe_open, describe_press, describe_screenshot, describe_scroll, describe_type, describe_wait, short_role,
    unknown_failure, BOLD, CYAN, DIM, GREEN, RED, RESET, YELLOW,
};
use agent_computer::protocol::{
    AppInfo, ElementInfo, FillData, GetAppsData, GetTextData, OpenData, PressData, ScrollData, TypeData, WaitData,
};

#[test]
fn fill_and_type_lines() {
    let f = describe_fill(&FillData { ref_id: "e4".to_string(), text: "hi".to_string() });
    assert_eq!(f, format!("Filled {CYAN}@e4{RESET} with {BOLD}\"hi\"{RESET}"));
    let t = describe_type(&TypeData { ref_id: Some("e2".to_string()), text: "abc".to_string() });
    assert_eq!(t, format!("Typed {BOLD}\"abc\"{RESET} into {CYAN}@e2{RESET}"));
    let u = describe_type(&TypeData { ref_id: None, text: "abc".to_string() });
    assert_eq!(u, format!("Typed {BOLD}\"abc\"{RESET}"));
}

#[test]
fn press_scroll_screenshot_wait_lines() {
    let p = describe_press(&PressData { key: "s".to_string(), modifiers: vec!["cmd".to_string(), "shift".to_string()] });
    assert_eq!(p, format!("Pressed {BOLD}cmd+shift+s{RESET}"));
    let q = describe_press(&PressData { key: "escape".to_string(), modifiers: vec![] });
    assert_eq!(q, format!("Pressed {BOLD}escape{RESET}"));
    let r = describe_press(&PressData { key: "a".to_string(), modifiers: vec![String::new()] });
    assert_eq!(r, format!("Pressed {BOLD}a{RESET}"));
    let s = describe_scroll(&ScrollData { direction: "down".to_string(), amount: 300 });
    assert_eq!(s, format!("Scrolled {BOLD}down{RESET} by 300 pixels"));
    let s2 = describe_scroll(&ScrollData { direction: "up".to_string(), amount: -5 });
    assert_eq!(s2, format!("Scrolled {BOLD}up{RESET} by -5 pixels"));
    assert_eq!(describe_screenshot("/tmp/a.png", 1728, 1117), format!("Screenshot saved to {CYAN}/tmp/a.png{RESET} (1728×1117)"));
    assert_eq!(describe_wait(&WaitData { waited_ms: 2000 }), format!("Waited {BOLD}2000ms{RESET}"));
}

#[test]
fn open_lines() {
    let l = describe_open(&OpenData { app: "Finder".to_string(), pid: 412, was_running: true, cdp_port: None });
    assert_eq!(l, vec![format!("Activated {BOLD}Finder{RESET} (pid 412)")]);
    let m = describe_open(&OpenData { app: "Slack".to_string(), pid: -1, was_running: false, cdp_port: Some(9300) });
    assert_eq!(m, vec![format!("Launched {BOLD}Slack{RESET} (pid -1)"), format!("  CDP enabled on port {CYAN}9300{RESET}")]);
}

#[test]
fn app_list_lines() {
    let apps = GetAppsData {
        apps: vec![
            AppInfo { name: "Finder".to_string(), pid: 412, is_active: true },
            AppInfo { name: "Notes".to_string(), pid: 77, is_active: false },
        ],
    };
    let lines = describe_get_apps(&apps);
    assert_eq!(lines, vec![format!("{BOLD}Finder{RESET} (pid 412) {GREEN}●{RESET}"), format!("{BOLD}Notes{RESET} (pid 77)")]);
    let none = describe_get_apps(&GetAppsData { apps: vec![] });
    assert_eq!(none, vec![format!("{DIM}No running GUI applications found.{RESET}")]);
}

#[test]
fn get_text_lines() {
    let a = describe_get_text(&GetTextData { ref_id: Some("e1".to_string()), text: "Save".to_string() });
    assert_eq!(a, format!("{CYAN}@e1{RESET}: Save"));
    let b = describe_get_text(&GetTextData { ref_id: None, text: "Title".to_string() });
    assert_eq!(b, "Title");
}

#[test]
fn error_lines() {
    let e = ErrorInfo {
        code: "REF_NOT_FOUND".to_string(),
        message: "Element @e99 not found. The UI may have changed.".to_string(),
        suggestion: Some("Run `snapshot` to refresh element references.".to_string()),
    };
    let lines = describe_error(&e);
    assert_eq!(lines[0], format!("{RED}{BOLD}Error{RESET}{RED} [REF_NOT_FOUND]: Element @e99 not found. The UI may have changed.{RESET}"));
    assert_eq!(lines[1], format!("{YELLOW}Suggestion: Run `snapshot` to refresh element references.{RESET}"));
    let local = describe_local_error("no socket", Some("Is the daemon running?"));
    assert_eq!(local, vec![format!("{RED}{BOLD}Error{RESET}{RED}: no socket{RESET}"), format!("{YELLOW}Suggestion: Is the daemon running?{RESET}")]);
    assert_eq!(describe_local_error("x", None).len(), 1);
    let u = unknown_failure();
    assert_eq!((u.code.as_str(), u.message.as_str()), ("UNKNOWN", "Command failed with no error details."));
}

#[test]
fn click_lines() {
    let el = ElementInfo { role: "AXButton".to_string(), label: Some("OK".to_string()) };
    assert_eq!(
        describe_click(Some("e3"), Some(&el), 125, 215),
        format!("Clicked {CYAN}@e3{RESET} button {BOLD}\"OK\"{RESET} at {DIM}(125, 215){RESET}")
    );
    assert_eq!(describe_click(None, None, -4, 0), format!("Clicked at {DIM}(-4, 0){RESET}"));
    assert_eq!(short_role("AXAXTextAXField"), "textfield");
    assert_eq!(short_role("AXA"), "a");
}
