use agent_computer::errors::{
    app_not_found, ax_error, cdp_error, cdp_not_available, daemon_error, input_error, invalid_command, no_ref_map,
    permission_denied_accessibility, permission_denied_screen_recording, ref_not_found, ref_stale, timeout,
};

#[test]
fn ref_not_found_report() {
    let e = ref_not_found("e3");
    assert_eq!(e.code, "REF_NOT_FOUND");
    assert_eq!(e.message, "Element @e3 not found. The UI may have changed.");
    assert_eq!(e.suggestion.as_deref(), Some("Run `snapshot` to refresh element references."));
}

#[test]
fn every_factory_has_its_code_and_text() {
    assert_eq!(ref_stale("e1").message, "Element @e1 existed but can no longer be located.");
    assert_eq!(ref_stale("e1").code, "REF_STALE");
    let n = no_ref_map();
    assert_eq!((n.code.as_str(), n.message.as_str()), ("NO_REF_MAP", "No element references available."));
    assert_eq!(n.suggestion.as_deref(), Some("Run `snapshot -i` first to discover interactive elements."));
    let a = permission_denied_accessibility();
    assert_eq!(a.code, "PERMISSION_DENIED");
    assert_eq!(a.message, "Accessibility permission required.");
    assert_eq!(a.suggestion.as_deref(), Some("Grant access in System Settings → Privacy & Security → Accessibility."));
    let s = permission_denied_screen_recording();
    assert_eq!(s.message, "Screen Recording permission required.");
    let t = timeout(12, 40);
    assert_eq!(t.code, "TIMEOUT");
    assert_eq!(t.message, "Snapshot timed out. Returning partial results (12 of ~40 elements).");
    assert_eq!(t.suggestion.as_deref(), Some("Try `snapshot -d 5` to reduce depth."));
    assert_eq!(ax_error("x").message, "Accessibility API error: x");
    assert_eq!(ax_error("x").code, "AX_ERROR");
    assert_eq!(input_error("y").message, "Input simulation error: y");
    assert_eq!(input_error("y").suggestion.as_deref(), Some("Check that Accessibility permission is granted."));
    assert_eq!(invalid_command("z").message, "Invalid command: z");
    assert_eq!(daemon_error("w").message, "Daemon error: w");
    assert!(daemon_error("w").suggestion.is_none());
    let c = cdp_not_available("Slack");
    assert_eq!(c.code, "CDP_NOT_AVAILABLE");
    assert_eq!(c.message, "Slack does not have CDP (Chrome DevTools Protocol) enabled.");
    assert_eq!(c.suggestion.as_deref(), Some("Run `agent-computer open --with-cdp Slack` to relaunch with rich UI support."));
    assert_eq!(cdp_error("v").message, "CDP error: v");
    assert_eq!(cdp_error("v").code, "CDP_ERROR");
}

#[test]
fn app_not_found_reports() {
    let none = app_not_found("Nope", &[]);
    assert_eq!(none.code, "APP_NOT_FOUND");
    assert_eq!(none.message, "Application 'Nope' not found.");
    assert_eq!(none.suggestion.as_deref(), Some("Check the app name and try again."));
    let some = app_not_found("Nope", &["Finder".to_string(), "Safari".to_string()]);
    assert_eq!(some.message, "Application 'Nope' not found. Running apps: Finder, Safari");
}
