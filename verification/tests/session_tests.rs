use pulsevision::session::{
    completion_outcome, event_type_or_unknown, extract_event_type, extract_timestamp,
    session_from_row, timestamp_or_zero, NoopSessionStore, SessionId, SessionMetadata,
    SessionStatus,
};
use pulsevision::error::Error;

fn version_nibble(v: u128) -> u128 {
    (v >> 76) & 0xf
}

fn variant_bits(v: u128) -> u128 {
    (v >> 62) & 0x3
}

#[test]
fn session_id_new_is_version7_and_not_nil() {
    let id = SessionId::new();
    assert_ne!(id.0, 0);
    assert_eq!(version_nibble(id.0), 7);
    assert_eq!(variant_bits(id.0), 2);
}

#[test]
fn session_id_default_is_fresh() {
    let a = SessionId::default();
    let b = SessionId::default();
    assert_ne!(a.0, 0);
    assert_eq!(version_nibble(b.0), 7);
    assert_ne!(a, b);
}

#[test]
fn session_id_text_is_hyphenated_lower_hex() {
    let id = SessionId(0xa1a2a3a4b1b2c1c2d1d2d3d4d5d6d7d8);
    assert_eq!(id.to_text(), "a1a2a3a4-b1b2-c1c2-d1d2-d3d4d5d6d7d8");
    assert_eq!(SessionId(0).to_text(), "00000000-0000-0000-0000-000000000000");
    assert_eq!(SessionId(u128::MAX).to_text(), "ffffffff-ffff-ffff-ffff-ffffffffffff");
}

#[test]
fn session_row_roundtrips_id() {
    let id = SessionId::new();
    let s = session_from_row(id.to_text(), 1711500000000, None, 0, "recording".into());
    assert_eq!(s.id, id);
    assert_eq!(s.created_at, 1711500000000);
    assert_eq!(s.event_count, 0);
    assert_eq!(s.status, SessionStatus::Recording);
}

#[test]
fn session_row_with_bad_id_is_nil() {
    let s = session_from_row("not-a-uuid".into(), 5, None, 2, "recording".into());
    assert_eq!(s.id, SessionId(0));
    assert_eq!(s.event_count, 2);
}

#[test]
fn session_row_status_text() {
    let id = SessionId(7);
    let done = session_from_row(id.to_text(), 1, None, 3, "completed".into());
    assert_eq!(done.status, SessionStatus::Completed);
    let rec = session_from_row(id.to_text(), 1, None, 3, "recording".into());
    assert_eq!(rec.status, SessionStatus::Recording);
    let odd = session_from_row(id.to_text(), 1, None, 3, "Completed".into());
    assert_eq!(odd.status, SessionStatus::Recording);
}

#[test]
fn session_row_metadata() {
    let meta = SessionMetadata {
        substrate_path: Some("/path/to/substrate.db".into()),
        description: Some("Integration test run".into()),
    };
    let s = session_from_row(SessionId(1).to_text(), 1, Some(meta), 0, "recording".into());
    assert_eq!(s.metadata.substrate_path, Some("/path/to/substrate.db".into()));
    assert_eq!(s.metadata.description, Some("Integration test run".into()));
    let empty = session_from_row(SessionId(1).to_text(), 1, None, 0, "recording".into());
    assert_eq!(empty.metadata.substrate_path, None);
    assert_eq!(empty.metadata.description, None);
}

#[test]
fn completing_missing_session_is_not_found() {
    let id = SessionId(0xa1a2a3a4b1b2c1c2d1d2d3d4d5d6d7d8);
    match completion_outcome(0, id) {
        Err(Error::NotFound(msg)) => {
            assert_eq!(msg, "Session a1a2a3a4-b1b2-c1c2-d1d2-d3d4d5d6d7d8 not found")
        }
        _ => panic!("expected NotFound"),
    }
}

#[test]
fn completing_existing_session_is_ok() {
    assert!(completion_outcome(1, SessionId(3)).is_ok());
    assert!(completion_outcome(2, SessionId(3)).is_ok());
}

#[test]
fn event_type_defaults_to_unknown() {
    assert_eq!(event_type_or_unknown(Some("agent_started".into())), "agent_started");
    assert_eq!(event_type_or_unknown(None), "unknown");
}

#[test]
fn timestamp_defaults_to_zero() {
    assert_eq!(timestamp_or_zero(Some(1711500000000)), 1711500000000);
    assert_eq!(timestamp_or_zero(None), 0);
}

#[test]
fn extract_from_event_json() {
    let text = r#"{"type":"agent_started","timestamp_ms":1711500000000,"agent_id":"agent-1","name":"test-agent","kind":"llm"}"#;
    assert_eq!(extract_event_type(Some(text)), "agent_started");
    assert_eq!(extract_timestamp(Some(text)), 1711500000000);
}

#[test]
fn extract_from_other_event_json() {
    let text = r#"{"type":"llm_call_completed","timestamp_ms":1711500001000,"model":"GLM-4.7"}"#;
    assert_eq!(extract_event_type(Some(text)), "llm_call_completed");
    assert_eq!(extract_timestamp(Some(text)), 1711500001000);
}

#[test]
fn extract_from_incomplete_event_json() {
    let wrong_types = r#"{"type":7,"timestamp_ms":"soon"}"#;
    assert_eq!(extract_event_type(Some(wrong_types)), "unknown");
    assert_eq!(extract_timestamp(Some(wrong_types)), 0);
    let missing = r#"{"foo":"bar"}"#;
    assert_eq!(extract_event_type(Some(missing)), "unknown");
    assert_eq!(extract_timestamp(Some(missing)), 0);
    assert_eq!(extract_event_type(Some("not valid json")), "unknown");
    assert_eq!(extract_timestamp(Some("[1, 2]")), 0);
    assert_eq!(extract_timestamp(Some(r#"{"timestamp_ms":-5}"#)), 0);
    assert_eq!(extract_event_type(None), "unknown");
    assert_eq!(extract_timestamp(None), 0);
}

#[test]
fn noop_store_keeps_nothing() {
    let store = NoopSessionStore;
    let id = store
        .create_session(SessionMetadata { substrate_path: None, description: Some("x".into()) })
        .unwrap();
    assert_ne!(id.0, 0);
    assert!(store.store_event(id).is_ok());
    assert!(store.list_events(id, 100, 0).unwrap().is_empty());
    assert!(store.list_sessions().unwrap().is_empty());
    assert!(store.get_session(id).unwrap().is_none());
    assert!(store.complete_session(id).is_ok());
}
