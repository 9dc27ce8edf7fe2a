use agent_computer::workspace::{frontmost_from_windows, WindowOwner, get_app_pid_by_name, get_running_app_names, get_running_gui_apps, is_app_running, RunningApp};

fn app(name: Option<&str>, pid: i32, active: bool, regular: bool) -> RunningApp {
    RunningApp { name: name.map(|s| s.to_string()), pid, is_active: active, regular }
}

fn desktop() -> Vec<RunningApp> {
    vec![
        app(Some("Finder"), 412, false, true),
        app(Some("Dock"), 398, false, false),
        app(Some("Safari"), 901, true, true),
        app(None, 77, false, true),
        app(Some(""), 78, false, true),
        app(Some("Spotlight"), 500, false, false),
    ]
}

#[test]
fn test_get_running_app_names_smoke() {
    let names = get_running_app_names(&desktop());
    assert!(names.contains(&"Finder".to_string()));
}

#[test]
fn test_is_app_running() {
    let apps = desktop();
    assert!(is_app_running(&apps, "Finder"));
    assert!(!is_app_running(&apps, "NonExistentApp12345"));
}

#[test]
fn test_get_running_gui_apps_smoke() {
    let apps = get_running_gui_apps(&desktop());
    let has_finder = apps.iter().any(|a| a.name == "Finder");
    assert!(has_finder, "Finder should always be in running apps");
    for app in &apps {
        assert!(app.pid > 0, "PID should be positive for {}", app.name);
    }
}

#[test]
fn gui_apps_keep_regular_named_ones_in_order() {
    let apps = get_running_gui_apps(&desktop());
    let names: Vec<&str> = apps.iter().map(|a| a.name.as_str()).collect();
    assert_eq!(names, vec!["Finder", "Safari"]);
    assert!(apps[1].is_active);
    assert_eq!(apps[1].pid, 901);
    assert_eq!(get_running_app_names(&desktop()), vec!["Finder".to_string(), "Safari".to_string()]);
}

#[test]
fn pid_lookup_skips_background_apps() {
    let apps = desktop();
    assert_eq!(get_app_pid_by_name(&apps, "Safari"), Some(901));
    assert_eq!(get_app_pid_by_name(&apps, "Dock"), None);
    assert_eq!(get_app_pid_by_name(&apps, ""), Some(78));
    assert!(!is_app_running(&apps, "safari"));
    let twice = vec![app(Some("Code"), 1, false, true), app(Some("Code"), 2, false, true)];
    assert_eq!(get_app_pid_by_name(&twice, "Code"), Some(1));
}

#[test]
fn frontmost_window_owner() {
    let w = |layer: Option<i32>, pid: Option<i32>, name: Option<&str>| WindowOwner {
        layer,
        pid,
        owner_name: name.map(|s| s.to_string()),
    };
    let make = || vec![
        w(Some(25), Some(10), Some("Menubar")),
        w(Some(0), Some(99), Some("Self")),
        w(Some(0), Some(0), Some("Nobody")),
        w(None, Some(11), Some("No layer")),
        w(Some(0), None, Some("No pid")),
        w(Some(0), Some(42), None),
        w(Some(0), Some(43), Some("Later")),
    ];
    assert_eq!(frontmost_from_windows(&make(), 99), Some(("Unknown".to_string(), 42)));
    let first_five: Vec<WindowOwner> = make().into_iter().take(5).collect();
    assert_eq!(frontmost_from_windows(&first_five, 99), None);
    assert_eq!(frontmost_from_windows(&make(), 42), Some(("Self".to_string(), 99)));
    assert_eq!(frontmost_from_windows(&vec![], 1), None);
}

#[test]
fn running_check_agrees_with_names_list() {
    let apps = desktop();
    let names = get_running_app_names(&apps);
    for name in ["Finder", "Safari", "Dock", "Spotlight", "NonExistentApp12345", "finder"] {
        assert_eq!(is_app_running(&apps, name), names.contains(&name.to_string()), "{}", name);
    }
    assert!(is_app_running(&apps, ""));
    assert!(!names.contains(&String::new()));
}
