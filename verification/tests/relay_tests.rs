use chat_inference::relay::{
    classify_line, InnerError, Message, Role, SseError, SseLine, StoredMessage,
};

fn stored(user_id: u32, content: &str) -> StoredMessage {
    StoredMessage { user_id, content: content.to_string() }
}

fn turns(messages: Vec<StoredMessage>) -> Vec<(Role, String)> {
    Message::from_db(messages).into_iter().map(|m| (m.role, m.content)).collect()
}

#[test]
fn consecutive_messages_of_one_author_form_one_turn() {
    let got = turns(vec![
        stored(1, "hi"),
        stored(1, "there"),
        stored(2, "hello"),
        stored(1, "how"),
        stored(1, "are"),
        stored(1, "you"),
    ]);
    assert_eq!(
        got,
        vec![
            (Role::User, "hi\nthere".to_string()),
            (Role::Assistant, "hello".to_string()),
            (Role::User, "how\nare\nyou".to_string()),
        ]
    );
}

#[test]
fn roles_alternate_from_the_user_whoever_the_authors_are() {
    assert_eq!(turns(vec![]), vec![]);
    assert_eq!(turns(vec![stored(9, "")]), vec![(Role::User, String::new())]);
    let got = turns(vec![stored(3, "a"), stored(4, "b"), stored(5, "c"), stored(3, "d")]);
    let roles: Vec<Role> = got.iter().map(|t| t.0).collect();
    assert_eq!(roles, vec![Role::User, Role::Assistant, Role::User, Role::Assistant]);
    assert_eq!(Role::User.flipped(), Role::Assistant);
    assert_eq!(Role::Assistant.flipped(), Role::User);
}

#[test]
fn refused_token_is_told_from_other_errors() {
    let refused = "Authorization header is correct, but the token seems invalid";
    assert!(matches!(InnerError::from_text(refused.to_string()), InnerError::InvalidToken));
    match InnerError::from_text("Model is overloaded".to_string()) {
        InnerError::Default(text) => assert_eq!(text, "Model is overloaded"),
        InnerError::InvalidToken => panic!("not a token error"),
    }
    assert!(matches!(InnerError::from_text(String::new()), InnerError::Default(_)));
    assert_eq!(InnerError::InvalidToken.describe(), "Invalid token");
    assert_eq!(InnerError::Default("boom".to_string()).describe(), "boom");
    let event = SseError::new(InnerError::from_text(refused.to_string()));
    assert!(matches!(event.error(), InnerError::InvalidToken));
    assert_eq!(event.describe(), "Invalid token");
}

#[test]
fn deserialize_chunk_error() {
    let error = InnerError::InvalidToken;
    assert_eq!(
        serde_json::to_string(&error.wire_text()).unwrap(),
        "\"Authorization header is correct, but the token seems invalid\""
    );
    let error = r#"{"error": "Authorization header is correct, but the token seems invalid"}"#;
    let value: serde_json::Value = serde_json::from_str(error).unwrap();
    let error = SseError::new(InnerError::from_text(value["error"].as_str().unwrap().to_string()));
    if let InnerError::InvalidToken = error.error() {
        // OK
    } else {
        panic!("Invalid deserialization of chunk error {error:?}");
    }
}

#[test]
fn written_errors_read_back() {
    for text in ["", "Model is overloaded", "Invalid token"] {
        let e = InnerError::from_text(text.to_string());
        assert_eq!(e.wire_text(), text);
    }
    let refused = InnerError::InvalidToken.wire_text();
    assert!(matches!(InnerError::from_text(refused), InnerError::InvalidToken));
}

#[test]
fn lines_of_the_event_stream_are_told_apart() {
    assert_eq!(classify_line(b""), SseLine::Empty);
    assert_eq!(classify_line(b"data: [DONE]"), SseLine::Done);
    assert_eq!(classify_line(b"data: {\"choices\":[]}"), SseLine::Data);
    assert_eq!(classify_line(b"data: "), SseLine::Data);
    assert_eq!(classify_line(b"data: [DONE] "), SseLine::Data);
    assert_eq!(classify_line(b"data: [done]"), SseLine::Data);
    assert_eq!(classify_line(b"data:"), SseLine::Other);
    assert_eq!(classify_line(b"Data: x"), SseLine::Other);
    assert_eq!(classify_line(b"{\"error\": \"boom\"}"), SseLine::Other);
    assert_eq!(classify_line(b" "), SseLine::Other);
}
