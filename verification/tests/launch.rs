use agent_computer::launch::{deterministic_port, session_name};
use std::collections::hash_map::DefaultHasher;
use std::hash::{Hash, Hasher};

#[test]
fn test_deterministic_port() {
    let port1 = deterministic_port("Slack");
    let port2 = deterministic_port("Slack");
    assert_eq!(port1, port2);
    assert!(port1 >= 9222 && port1 <= 9399);

    let port3 = deterministic_port("Chrome");
    assert!(port3 >= 9222 && port3 <= 9399);
}

#[test]
fn test_deterministic_port_case_insensitive() {
    let port1 = deterministic_port("Slack");
    let port2 = deterministic_port("slack");
    assert_eq!(port1, port2);
}

#[test]
fn port_is_the_hash_of_the_lowercased_name() {
    let mut hasher = DefaultHasher::new();
    "visual studio code".hash(&mut hasher);
    let expected = 9222 + (hasher.finish() % 178) as u16;
    assert_eq!(deterministic_port("Visual Studio Code"), expected);
}

#[test]
fn session_names_are_lowercase_and_dashed() {
    assert_eq!(session_name("Visual Studio Code"), "visual-studio-code");
    assert_eq!(session_name("Spotify"), "spotify");
    assert_eq!(session_name(""), "");
}
