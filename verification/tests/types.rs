use agent_computer::types::{daemon_socket_dir, daemon_socket_path, is_interactive_role, is_known_browser, socket_dir_in};

#[test]
fn test_daemon_socket_dir_is_under_home() {
    let dir = daemon_socket_dir();
    assert!(dir.ends_with(".agent-desktop"), "Socket dir should end with .agent-desktop, got: {}", dir);
}

#[test]
fn test_daemon_socket_path_default() {
    let path = daemon_socket_path(None);
    assert!(path.ends_with("daemon.sock"), "Default socket should end with daemon.sock, got: {}", path);
    assert!(path.contains(".agent-desktop"), "Default socket should be under .agent-desktop, got: {}", path);
}

#[test]
fn test_daemon_socket_path_custom_env() {
    let custom = "/tmp/test-agent-desktop.sock";
    let path = daemon_socket_path(Some(custom.to_string()));
    assert_eq!(path, custom);
}

#[test]
fn socket_dir_fallback() {
    assert_eq!(socket_dir_in(None), "/tmp/.agent-desktop");
    assert_eq!(socket_dir_in(Some("/Users/a")), "/Users/a/.agent-desktop");
}

#[test]
fn role_and_browser_tables() {
    assert!(is_interactive_role("AXButton"));
    assert!(!is_interactive_role("AXStaticText"));
    assert!(is_known_browser("com.google.Chrome"));
    assert!(!is_known_browser("com.apple.finder"));
}
