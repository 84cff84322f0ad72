//! Recording sessions: identifiers, metadata, stored events, the rules by
//! which a stored row becomes a `Session`, and the store that keeps nothing.

use vstd::prelude::*;

use crate::error::Error;
use crate::ident::{id_text, is_version7, parsed_id, id_from_text, id_to_text, fresh_version7_id};

verus! {

/// Unique session identifier: the 128-bit value of a version-7 UUID.
#[derive(Clone, Copy, Debug, PartialEq, Eq, Hash, Structural)]
pub struct SessionId(pub u128);

impl SessionId {
    /// A fresh identifier, made from the clock and random bits; it is a
    /// version-7 identifier and so never nil.
    pub fn new() -> (id: SessionId)
        ensures
            is_version7(id.0),
            id.0 != 0,
    {
        let v = fresh_version7_id();
        proof {
            crate::ident::lemma_version7_not_nil(v);
        }
        SessionId(v)
    }

    /// The identifier's hyphenated text form, as stored in the session
    /// table and shown in messages.
    pub fn to_text(&self) -> (text: String)
        ensures
            text@ == id_text(self.0),
    {
        id_to_text(self.0)
    }
}

impl Default for SessionId {
    fn default() -> (id: SessionId)
        ensures
            is_version7(id.0),
            id.0 != 0,
    {
        SessionId::new()
    }
}

/// Metadata for a recording session.
#[derive(Clone, Debug)]
pub struct SessionMetadata {
    pub substrate_path: Option<String>,
    pub description: Option<String>,
}

/// Session lifecycle status.
#[derive(Clone, Copy, Debug, PartialEq, Eq, Structural)]
pub enum SessionStatus {
    Recording,
    Completed,
}

/// A persisted session record.
#[derive(Clone, Debug)]
pub struct Session {
    pub id: SessionId,
    pub created_at: u64,
    pub metadata: SessionMetadata,
    pub event_count: u64,
    pub status: SessionStatus,
}

/// A stored event with its sequence number within the session.
#[derive(Clone, Debug)]
pub struct StoredEvent {
    pub seq: u64,
    pub event_type: String,
    pub event_json: String,
    pub timestamp_ms: u64,
}

/// Metadata with neither a substrate path nor a description.
pub open spec fn empty_metadata() -> SessionMetadata {
    SessionMetadata { substrate_path: None, description: None }
}

/// The identifier a stored id text stands for: the parsed value, or nil
/// where the text does not parse.
pub open spec fn stored_id(text: Seq<char>) -> SessionId {
    match parsed_id(text) {
        Some(v) => SessionId(v),
        None => SessionId(0),
    }
}

/// The status a stored status text stands for: `completed` is
/// `Completed`, any other text `Recording`.
pub open spec fn stored_status(text: Seq<char>) -> SessionStatus {
    if text == "completed"@ {
        SessionStatus::Completed
    } else {
        SessionStatus::Recording
    }
}

/// The session a row of the session table stands for.
pub open spec fn session_of_row(
    id_field: Seq<char>,
    created_at: u64,
    metadata: Option<SessionMetadata>,
    event_count: u64,
    status_field: Seq<char>,
) -> Session {
    Session {
        id: stored_id(id_field),
        created_at,
        metadata: match metadata {
            Some(m) => m,
            None => empty_metadata(),
        },
        event_count,
        status: stored_status(status_field),
    }
}

/// Builds the session that a row of the session table holds: the id text
/// is parsed (nil where it does not parse), metadata that could not be read
/// back becomes empty metadata, and the status text `completed` means
/// `Completed`, any other `Recording`.
pub fn session_from_row(
    id_field: String,
    created_at: u64,
    metadata: Option<SessionMetadata>,
    event_count: u64,
    status_field: String,
) -> (session: Session)
    ensures
        session == session_of_row(id_field@, created_at, metadata, event_count, status_field@),
        session.id == stored_id(id_field@),
        forall|v: u128| #![trigger id_text(v)] id_field@ == id_text(v) ==> session.id == SessionId(v),
        session.created_at == created_at,
        session.metadata == match metadata {
            Some(m) => m,
            None => empty_metadata(),
        },
        session.event_count == event_count,
        session.status == stored_status(status_field@),
{
    let id = match id_from_text(id_field.as_str()) {
        Some(v) => SessionId(v),
        None => SessionId(0),
    };
    let metadata = match metadata {
        Some(m) => m,
        None => SessionMetadata { substrate_path: None, description: None },
    };
    let completed = String::from_str("completed");
    let status = if status_field == completed {
        SessionStatus::Completed
    } else {
        SessionStatus::Recording
    };
    Session { id, created_at, metadata, event_count, status }
}

/// Reading one row twice gives one session: the listing of all sessions
/// and the lookup of one session, which both read rows with
/// `session_from_row`, agree on every session whose row they both read.
pub proof fn lemma_row_reads_agree(
    id_field: Seq<char>,
    created_at: u64,
    metadata: Option<SessionMetadata>,
    event_count: u64,
    status_field: Seq<char>,
    listed: Session,
    looked_up: Session,
)
    requires
        listed == session_of_row(id_field, created_at, metadata, event_count, status_field),
        looked_up == session_of_row(id_field, created_at, metadata, event_count, status_field),
    ensures
        listed == looked_up,
        listed.id == stored_id(id_field),
        listed.status == stored_status(status_field),
{
}

/// The outcome of marking a session completed, given how many session rows
/// the update touched: none means the session does not exist.
pub fn completion_outcome(rows_updated: usize, id: SessionId) -> (outcome: Result<(), Error>)
    ensures
        rows_updated > 0 ==> outcome is Ok,
        rows_updated == 0 ==> match outcome {
            Err(Error::NotFound(msg)) => msg@ == "Session "@ + id_text(id.0) + " not found"@,
            _ => false,
        },
{
    if rows_updated == 0 {
        let msg = String::from_str("Session ").concat(id.to_text().as_str()).concat(" not found");
        Err(Error::NotFound(msg))
    } else {
        Ok(())
    }
}

/// The text of the member `key` of the JSON document `text`, as
/// `serde_json` reads it: `None` where the text is not JSON, or the member
/// is missing or not a string.
pub uninterp spec fn json_text_member(text: Seq<char>, key: Seq<char>) -> Option<Seq<char>>;

/// The member `key` of the JSON document `text` as an unsigned integer, as
/// `serde_json` reads it: `None` where the text is not JSON, or the member
/// is missing or not a non-negative integer that fits in 64 bits.
pub uninterp spec fn json_unsigned_member(text: Seq<char>, key: Seq<char>) -> Option<u64>;

/// Parses `text` with `serde_json::from_str::<serde_json::Value>`, indexes
/// the value by `key` (`Value`'s `Index`, which gives `Null` for a missing
/// member or a non-object) and reads it with `Value::as_str`. The contract
/// names the outcome `json_text_member(text@, key@)`.
#[verifier::external_body]
fn text_member_of_json(text: &str, key: &str) -> (member: Option<String>)
    ensures
        match member {
            Some(s) => json_text_member(text@, key@) == Some(s@),
            None => json_text_member(text@, key@) is None,
        },
{
    match serde_json::from_str::<serde_json::Value>(text) {
        Ok(value) => value[key].as_str().map(String::from),
        Err(_) => None,
    }
}

/// Parses `text` with `serde_json::from_str::<serde_json::Value>`, indexes
/// the value by `key` (`Value`'s `Index`, which gives `Null` for a missing
/// member or a non-object) and reads it with `Value::as_u64`. The contract
/// names the outcome `json_unsigned_member(text@, key@)`.
#[verifier::external_body]
fn unsigned_member_of_json(text: &str, key: &str) -> (member: Option<u64>)
    ensures
        member == json_unsigned_member(text@, key@),
{
    match serde_json::from_str::<serde_json::Value>(text) {
        Ok(value) => value[key].as_u64(),
        Err(_) => None,
    }
}

/// The event type recorded for an event whose `type` member reads as
/// `member`: that text, or `unknown` where there is none.
pub fn event_type_or_unknown(member: Option<String>) -> (event_type: String)
    ensures
        event_type@ == match member {
            Some(s) => s@,
            None => "unknown"@,
        },
{
    match member {
        Some(s) => s,
        None => String::from_str("unknown"),
    }
}

/// The timestamp recorded for an event whose `timestamp_ms` member reads
/// as `member`: that number, or 0 where there is none.
pub fn timestamp_or_zero(member: Option<u64>) -> (timestamp_ms: u64)
    ensures
        timestamp_ms == match member {
            Some(t) => t,
            None => 0,
        },
{
    match member {
        Some(t) => t,
        None => 0,
    }
}

/// The event type of an event from its JSON text (`None` where the event
/// could not be turned into JSON): the text of its `type` member, else
/// `unknown`.
pub fn extract_event_type(event_json: Option<&str>) -> (event_type: String)
    ensures
        event_type@ == match event_json {
            Some(text) => match json_text_member(text@, "type"@) {
                Some(t) => t,
                None => "unknown"@,
            },
            None => "unknown"@,
        },
{
    let member = match event_json {
        Some(text) => text_member_of_json(text, "type"),
        None => None,
    };
    event_type_or_unknown(member)
}

/// The timestamp of an event from its JSON text (`None` where the event
/// could not be turned into JSON): its `timestamp_ms` member, else 0.
pub fn extract_timestamp(event_json: Option<&str>) -> (timestamp_ms: u64)
    ensures
        timestamp_ms == match event_json {
            Some(text) => match json_unsigned_member(text@, "timestamp_ms"@) {
                Some(t) => t,
                None => 0,
            },
            None => 0,
        },
{
    let member = match event_json {
        Some(text) => unsigned_member_of_json(text, "timestamp_ms"),
        None => None,
    };
    timestamp_or_zero(member)
}

/// A session store that keeps nothing: every write succeeds and is
/// dropped, every read finds nothing.
pub struct NoopSessionStore;

impl NoopSessionStore {
    /// Hands out a fresh session identifier and records nothing.
    pub fn create_session(&self, metadata: SessionMetadata) -> (created: Result<SessionId, Error>)
        ensures
            created matches Ok(id) && is_version7(id.0) && id.0 != 0,
    {
        Ok(SessionId::new())
    }

    /// Drops the event.
    pub fn store_event(&self, session_id: SessionId) -> (stored: Result<(), Error>)
        ensures
            stored is Ok,
    {
        Ok(())
    }

    /// Finds no events.
    pub fn list_events(&self, session_id: SessionId, limit: usize, offset: usize) -> (events: Result<
        Vec<StoredEvent>,
        Error,
    >)
        ensures
            events matches Ok(v) && v@.len() == 0,
    {
        Ok(Vec::new())
    }

    /// Finds no sessions.
    pub fn list_sessions(&self) -> (sessions: Result<Vec<Session>, Error>)
        ensures
            sessions matches Ok(v) && v@.len() == 0,
    {
        Ok(Vec::new())
    }

    /// Finds no session.
    pub fn get_session(&self, id: SessionId) -> (session: Result<Option<Session>, Error>)
        ensures
            session matches Ok(None),
    {
        Ok(None)
    }

    /// Accepts the completion of any session.
    pub fn complete_session(&self, id: SessionId) -> (completed: Result<(), Error>)
        ensures
            completed is Ok,
    {
        Ok(())
    }
}

} // verus!
