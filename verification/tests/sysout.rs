use agent_computer::sysout::{
    bundle_path_from_ps, enclosing_app_bundle, parse_bundle_id, trim_char, lines, parse_app_names, parse_first_pid, parse_gui_apps, parse_i32_str, parse_window_title, printed_something,
    split_by, trim,
};

#[test]
fn trimming_and_lines() {
    assert_eq!(trim("  hi \n"), "hi");
    assert_eq!(trim("\u{3000}x\u{a0}"), "x");
    assert_eq!(trim("   "), "");
    assert_eq!(lines("a\nb\r\nc"), vec!["a", "b", "c"]);
    assert_eq!(lines("a\n"), vec!["a"]);
    assert_eq!(lines(""), Vec::<String>::new());
    assert_eq!(lines("\n\nx\r"), vec!["", "", "x\r"]);
    assert_eq!(split_by("a||b||", "||"), vec!["a", "b", ""]);
    assert_eq!(split_by("a|||b", "||"), vec!["a", "|b"]);
    assert_eq!(split_by("", ", "), vec![""]);
}

#[test]
fn signed_numbers() {
    assert_eq!(parse_i32_str("42"), Some(42));
    assert_eq!(parse_i32_str("-2147483648"), Some(i32::MIN));
    assert_eq!(parse_i32_str("2147483647"), Some(i32::MAX));
    assert_eq!(parse_i32_str("2147483648"), None);
    assert_eq!(parse_i32_str("+7"), Some(7));
    assert_eq!(parse_i32_str("-"), None);
    assert_eq!(parse_i32_str(""), None);
    assert_eq!(parse_i32_str("1 "), None);
    for s in ["0", "-0", "00012", "-99999", "123456789012", "x1", "+-1"] {
        assert_eq!(parse_i32_str(s), s.parse::<i32>().ok(), "{}", s);
    }
}

#[test]
fn gui_apps_from_applescript() {
    let out = "Finder||412||true\nSafari||901||false\n\nbroken line\nNotes||abc|| true \n";
    let apps = parse_gui_apps(out);
    assert_eq!(apps.len(), 3);
    assert_eq!((apps[0].name.as_str(), apps[0].pid, apps[0].is_active), ("Finder", 412, true));
    assert_eq!((apps[1].name.as_str(), apps[1].pid, apps[1].is_active), ("Safari", 901, false));
    assert_eq!((apps[2].name.as_str(), apps[2].pid, apps[2].is_active), ("Notes", 0, true));
    assert!(parse_gui_apps("   \n").is_empty());
}

#[test]
fn app_names_pids_and_titles() {
    assert_eq!(parse_app_names("Finder, Safari, Notes\n"), vec!["Finder", "Safari", "Notes"]);
    assert_eq!(parse_app_names("  \n"), Vec::<String>::new());
    assert_eq!(parse_app_names("A, , B"), vec!["A", "B"]);
    assert_eq!(parse_first_pid("123\n456\n"), Some(123));
    assert_eq!(parse_first_pid(""), None);
    assert_eq!(parse_first_pid("abc\n"), None);
    assert_eq!(parse_window_title("  Inbox  \n"), Some("Inbox".to_string()));
    assert_eq!(parse_window_title("\n"), None);
    assert!(printed_something(" Finder\n"));
    assert!(!printed_something(" \n\t"));
}

#[test]
fn bundle_ids_and_paths() {
    assert_eq!(parse_bundle_id("\"bundleid\"=\"com.google.Chrome\"\n"), Some("com.google.Chrome".to_string()));
    assert_eq!(parse_bundle_id("junk\n\"bundleid\"= \"com.apple.finder\" \n"), Some("com.apple.finder".to_string()));
    assert_eq!(parse_bundle_id("\"bundleid\"=\"\"\n\"bundleid\"=\"x.y\""), Some("x.y".to_string()));
    assert_eq!(parse_bundle_id("\"bundleid\"=[ NULL ]"), Some("[ NULL ]".to_string()));
    assert_eq!(parse_bundle_id(""), None);
    assert_eq!(trim_char("\"\"a\"b\"", '"'), "a\"b");
    assert_eq!(
        bundle_path_from_ps("/Applications/Slack.app/Contents/MacOS/Slack\n"),
        Some("/Applications/Slack.app".to_string())
    );
    assert_eq!(
        enclosing_app_bundle("/Applications/Foo.app/Contents/Frameworks/Helper.app/Contents/MacOS/Helper"),
        Some("/Applications/Foo.app/Contents/Frameworks/Helper.app".to_string())
    );
    assert_eq!(enclosing_app_bundle("/usr/bin/ssh"), None);
    assert_eq!(enclosing_app_bundle("/x/.app/y"), None);
    assert_eq!(bundle_path_from_ps("  \n"), None);
}
