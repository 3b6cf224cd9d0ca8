use smol_dfr::session_detect::{
    graphical_session_user, is_niri_socket_name, parse_session_list, parse_session_properties,
};

#[test]
fn test_parse_session_list_typical() {
    let output = "    2  1000 user seat0\n    5  1000 user \n";
    let ids = parse_session_list(output);
    assert_eq!(ids, vec!["2", "5"]);
}

#[test]
fn test_parse_session_list_empty() {
    let ids = parse_session_list("");
    assert!(ids.is_empty());
}

#[test]
fn test_parse_session_list_whitespace_only() {
    let ids = parse_session_list("   \n  \n");
    assert!(ids.is_empty());
}

#[test]
fn test_parse_session_properties_wayland() {
    let output = "User=1000\nName=user\nType=wayland\n";
    let result = parse_session_properties(output);
    assert_eq!(
        result,
        Some(("wayland".to_string(), "user".to_string(), 1000))
    );
}

#[test]
fn test_parse_session_properties_tty() {
    let output = "Type=tty\nName=user\nUser=1000\n";
    let result = parse_session_properties(output);
    assert_eq!(result, Some(("tty".to_string(), "user".to_string(), 1000)));
}

#[test]
fn test_parse_session_properties_x11() {
    let output = "Name=john\nType=x11\nUser=1001\n";
    let result = parse_session_properties(output);
    assert_eq!(result, Some(("x11".to_string(), "john".to_string(), 1001)));
}

#[test]
fn test_parse_session_properties_empty() {
    let result = parse_session_properties("");
    assert_eq!(result, None);
}

#[test]
fn test_parse_session_properties_missing_field() {
    let result = parse_session_properties("Type=wayland\nName=user\n");
    assert_eq!(result, None);
}

#[test]
fn test_parse_session_properties_with_extra_whitespace() {
    let output = "  Type=wayland  \n  Name=user  \n  User=1000  \n";
    let result = parse_session_properties(output);
    assert_eq!(
        result,
        Some(("wayland".to_string(), "user".to_string(), 1000))
    );
}

#[test]
fn session_list_handles_crlf_and_tabs() {
    let ids = parse_session_list("\t7 1000 user\r\n\n c2 1001 other\r\n");
    assert_eq!(ids, vec!["7", "c2"]);
}

#[test]
fn session_properties_last_line_wins_and_bad_uid_drops() {
    let r = parse_session_properties("Type=tty\nType=wayland\nName=a\nUser=12\n");
    assert_eq!(r, Some(("wayland".to_string(), "a".to_string(), 12)));
    // A later User line that is not a number leaves no uid.
    let r = parse_session_properties("Type=x11\nName=a\nUser=12\nUser=abc\n");
    assert_eq!(r, None);
    // `+` is accepted before the number; overflow is not.
    let r = parse_session_properties("Type=x11\nName=a\nUser=+42\n");
    assert_eq!(r, Some(("x11".to_string(), "a".to_string(), 42)));
    let r = parse_session_properties("Type=x11\nName=a\nUser=4294967296\n");
    assert_eq!(r, None);
}

#[test]
fn session_properties_order_independent() {
    let a = parse_session_properties("Type=x11\nName=bob\nUser=7\n");
    let b = parse_session_properties("User=7\nType=x11\nName=bob\n");
    assert_eq!(a, b);
}

#[test]
fn graphical_session_user_accepts_wayland_and_x11_only() {
    let u = graphical_session_user("Type=wayland\nName=alice\nUser=1000\n").unwrap();
    assert_eq!((u.uid, u.username.as_str()), (1000, "alice"));
    assert!(graphical_session_user("Type=x11\nName=bob\nUser=1001\n").is_some());
    assert!(graphical_session_user("Type=tty\nName=bob\nUser=1001\n").is_none());
    assert!(graphical_session_user("Type=wayland\nName=bob\n").is_none());
}

#[test]
fn niri_socket_names() {
    assert!(is_niri_socket_name("niri.wayland-1.1234.sock"));
    assert!(is_niri_socket_name("niri.sock"));
    assert!(!is_niri_socket_name("niri.wayland-1.1234.lock"));
    assert!(!is_niri_socket_name("pulse"));
    assert!(!is_niri_socket_name("niri."));
}
