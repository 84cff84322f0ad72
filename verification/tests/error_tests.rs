use pulsevision::error::Error;

#[test]
fn status_codes_by_variant() {
    assert_eq!(Error::NotFound("x".into()).status_code(), 404);
    assert_eq!(Error::InvalidRequest("x".into()).status_code(), 400);
    assert_eq!(Error::Substrate("x".into()).status_code(), 500);
    assert_eq!(Error::SessionStore("x".into()).status_code(), 500);
    assert_eq!(Error::Projection("x".into()).status_code(), 500);
    assert_eq!(Error::WebSocket("x".into()).status_code(), 500);
}

#[test]
fn messages_by_variant() {
    assert_eq!(Error::Substrate("db".into()).message(), "substrate error: db");
    assert_eq!(Error::SessionStore("lock".into()).message(), "session store error: lock");
    assert_eq!(Error::Projection("svd".into()).message(), "projection error: svd");
    assert_eq!(Error::WebSocket("closed".into()).message(), "websocket error: closed");
    assert_eq!(Error::NotFound("it".into()).message(), "not found: it");
    assert_eq!(Error::InvalidRequest("bad".into()).message(), "invalid request: bad");
    assert_eq!(Error::Serialization("eof".into()).message(), "serialization error: eof");
}

#[test]
fn serialization_error_message_and_status() {
    let inner = serde_json::from_str::<serde_json::Value>("not valid json").unwrap_err();
    let expected = format!("serialization error: {}", inner);
    let e = Error::from_serialization_failure(inner.to_string());
    match &e {
        Error::Serialization(text) => assert_eq!(text, &inner.to_string()),
        _ => panic!("expected Serialization"),
    }
    assert_eq!(e.status_code(), 500);
    assert_eq!(e.message(), expected);
    assert!(e.message().starts_with("serialization error: "));
}

#[test]
fn substrate_not_found_failure() {
    let e = Error::from_substrate_failure(true, "experience 42 missing".into());
    match &e {
        Error::NotFound(msg) => assert_eq!(msg, "Resource not found"),
        _ => panic!("expected NotFound"),
    }
    assert_eq!(e.status_code(), 404);
}

#[test]
fn substrate_other_failure() {
    let e = Error::from_substrate_failure(false, "disk full".into());
    match &e {
        Error::Substrate(msg) => assert_eq!(msg, "disk full"),
        _ => panic!("expected Substrate"),
    }
    assert_eq!(e.status_code(), 500);
}
