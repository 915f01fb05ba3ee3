use storage::echo::{echo_reply, echo_text, on_frame, respond, EchoStep, FrameKind, UserMessage};

#[test]
fn echo_prefixes_the_message() {
    assert_eq!(echo_text("hello from interface"), "ECHO: hello from interface");
    assert_eq!(echo_reply(b"hi"), b"ECHO: hi".to_vec());
}

#[test]
fn invalid_utf8_is_echoed_with_replacement_characters() {
    assert_eq!(echo_reply(&[b'a', 0xFF, b'b']), "ECHO: a\u{FFFD}b".as_bytes().to_vec());
}

#[test]
fn frames_are_answered_by_kind() {
    assert!(matches!(on_frame(FrameKind::Open, None), EchoStep::Opened));
    assert!(matches!(on_frame(FrameKind::Close, None), EchoStep::Closed));
    assert!(matches!(on_frame(FrameKind::Other, Some(b"x".to_vec())), EchoStep::Skip));
    assert!(matches!(on_frame(FrameKind::Data, None), EchoStep::Skip));
    assert!(matches!(on_frame(FrameKind::Data, Some(Vec::new())), EchoStep::Skip));
    match on_frame(FrameKind::Data, Some(b"ping".to_vec())) {
        EchoStep::Reply(bytes) => assert_eq!(bytes, b"ECHO: ping".to_vec()),
        other => panic!("unexpected step {:?}", other),
    }
}

#[test]
fn echo_action_answers_with_alice() {
    let r = respond(&UserMessage { message: "yo".to_string() });
    assert_eq!(r.response, "ECHO: yo");
    assert_eq!(r.user.name, "Alice");
    assert_eq!(r.user.age, 30);
}
