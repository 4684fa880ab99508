use backend_supervisor::reply::read_message;

#[test]
fn message_is_the_text_member_of_that_name() {
    assert_eq!(read_message(b"{\"message\": \"bye\"}"), Some("bye".to_string()));
    assert_eq!(
        read_message(b" { \"a\": 1, \"message\": \"caf\\u00e9 \\\"x\\\"\", \"b\": [] } "),
        Some("café \"x\"".to_string())
    );
    assert_eq!(read_message(b"{\"message\": \"\"}"), Some(String::new()));
    assert_eq!(
        read_message(b"{\"message\": \"first\", \"message\": \"second\"}"),
        Some("second".to_string())
    );
}

#[test]
fn message_is_not_the_body_itself() {
    let body = b"{\"message\": \"stopped\"}";
    let found = read_message(body).expect("the body has a message");
    assert_ne!(found.as_bytes(), &body[..]);
    assert_eq!(found, "stopped");
}

#[test]
fn no_message_in_other_bodies() {
    assert_eq!(read_message(b""), None);
    assert_eq!(read_message(b"not json"), None);
    assert_eq!(read_message(b"{\"other\": \"x\"}"), None);
    assert_eq!(read_message(b"{\"message\": 12}"), None);
    assert_eq!(read_message(b"{\"message\": [\"x\"]}"), None);
    assert_eq!(read_message(b"[1, 2]"), None);
    assert_eq!(read_message(b"\"message\""), None);
    assert_eq!(read_message(&[0xff, 0xfe]), None);
}
