//! The library's error type, its HTTP status and its message.

use vstd::prelude::*;

verus! {

/// Everything that can go wrong while serving PulseVision.
#[derive(Debug)]
pub enum Error {
    Substrate(String),
    SessionStore(String),
    Projection(String),
    WebSocket(String),
    /// A value could not be serialized; holds `serde_json`'s description.
    Serialization(String),
    NotFound(String),
    InvalidRequest(String),
}

/// The HTTP status an error is answered with.
pub open spec fn error_status(e: &Error) -> u16 {
    match e {
        Error::NotFound(_) => 404,
        Error::InvalidRequest(_) => 400,
        _ => 500,
    }
}

impl Error {
    /// The HTTP status the error is answered with: 404 for `NotFound`,
    /// 400 for `InvalidRequest`, 500 for everything else.
    pub fn status_code(&self) -> (code: u16)
        ensures
            code == error_status(self),
    {
        match self {
            Error::NotFound(_) => 404,
            Error::InvalidRequest(_) => 400,
            _ => 500,
        }
    }

    /// The human-readable message of the error, as put in the `error` field
    /// of an error response.
    pub fn message(&self) -> (text: String)
        ensures
            match self {
                Error::Substrate(s) => text@ == "substrate error: "@ + s@,
                Error::SessionStore(s) => text@ == "session store error: "@ + s@,
                Error::Projection(s) => text@ == "projection error: "@ + s@,
                Error::WebSocket(s) => text@ == "websocket error: "@ + s@,
                Error::Serialization(s) => text@ == "serialization error: "@ + s@,
                Error::NotFound(s) => text@ == "not found: "@ + s@,
                Error::InvalidRequest(s) => text@ == "invalid request: "@ + s@,
            },
    {
        match self {
            Error::Substrate(s) => String::from_str("substrate error: ").concat(s.as_str()),
            Error::SessionStore(s) => String::from_str("session store error: ").concat(s.as_str()),
            Error::Projection(s) => String::from_str("projection error: ").concat(s.as_str()),
            Error::WebSocket(s) => String::from_str("websocket error: ").concat(s.as_str()),
            Error::Serialization(s) => String::from_str("serialization error: ").concat(s.as_str()),
            Error::NotFound(s) => String::from_str("not found: ").concat(s.as_str()),
            Error::InvalidRequest(s) => String::from_str("invalid request: ").concat(s.as_str()),
        }
    }

    /// The error for a `serde_json` failure, given the failure's
    /// description (its `Display` text): `Serialization` holding it.
    pub fn from_serialization_failure(description: String) -> (err: Error)
        ensures
            match err {
                Error::Serialization(s) => s@ == description@,
                _ => false,
            },
    {
        Error::Serialization(description)
    }

    /// The error for a failed substrate read: a missing resource becomes
    /// `NotFound("Resource not found")`, any other failure `Substrate`
    /// with the failure's text.
    pub fn from_substrate_failure(not_found: bool, failure_text: String) -> (e: Error)
        ensures
            match e {
                Error::NotFound(s) => not_found && s@ == "Resource not found"@,
                Error::Substrate(s) => !not_found && s@ == failure_text@,
                _ => false,
            },
    {
        if not_found {
            Error::NotFound(String::from_str("Resource not found"))
        } else {
            Error::Substrate(failure_text)
        }
    }
}

} // verus!
