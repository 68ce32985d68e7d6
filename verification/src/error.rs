//! The failures that the watcher can report.

use vstd::prelude::*;
use vstd::std_specs::convert::FromSpecImpl;

verus! {

/// `websocket::WebSocketError`, a failure of the event stream. It is carried, never looked
/// into.
#[verifier::external_type_specification]
#[verifier::external_body]
pub struct ExWebSocketError(websocket::WebSocketError);

/// `websocket::client::ParseError`, the reason for which a stream address cannot be read.
/// It is carried, never looked into.
#[verifier::external_type_specification]
#[verifier::external_body]
pub struct ExParseError(websocket::client::ParseError);

/// `std::io::Error`. It is carried, never looked into.
#[verifier::external_type_specification]
#[verifier::external_body]
pub struct ExIoError(std::io::Error);

/// `reqwest::Error`, a failure to carry out a state query. It is carried, never looked
/// into.
#[verifier::external_type_specification]
#[verifier::external_body]
pub struct ExReqwestError(reqwest::Error);

/// A failure, by the collaborator that reported it, with its cause.
#[derive(Debug)]
pub enum PoolWatcherError {
    /// The event stream's transport failed.
    WebSocket(websocket::WebSocketError),
    /// The event stream's address could not be read.
    Parse(websocket::client::ParseError),
    /// A local input or output operation failed.
    IO(std::io::Error),
    /// A state query could not be carried out.
    Reqwest(reqwest::Error),
    /// A text was not a JSON document.
    Json(serde_json::Error),
}

impl From<websocket::WebSocketError> for PoolWatcherError {
    fn from(err: websocket::WebSocketError) -> (e: Self) {
        PoolWatcherError::WebSocket(err)
    }
}

impl FromSpecImpl<websocket::WebSocketError> for PoolWatcherError {
    open spec fn obeys_from_spec() -> bool {
        true
    }

    open spec fn from_spec(err: websocket::WebSocketError) -> Self {
        PoolWatcherError::WebSocket(err)
    }
}

impl From<websocket::client::ParseError> for PoolWatcherError {
    fn from(err: websocket::client::ParseError) -> (e: Self) {
        PoolWatcherError::Parse(err)
    }
}

impl FromSpecImpl<websocket::client::ParseError> for PoolWatcherError {
    open spec fn obeys_from_spec() -> bool {
        true
    }

    open spec fn from_spec(err: websocket::client::ParseError) -> Self {
        PoolWatcherError::Parse(err)
    }
}

impl From<std::io::Error> for PoolWatcherError {
    fn from(err: std::io::Error) -> (e: Self) {
        PoolWatcherError::IO(err)
    }
}

impl FromSpecImpl<std::io::Error> for PoolWatcherError {
    open spec fn obeys_from_spec() -> bool {
        true
    }

    open spec fn from_spec(err: std::io::Error) -> Self {
        PoolWatcherError::IO(err)
    }
}

impl From<reqwest::Error> for PoolWatcherError {
    fn from(err: reqwest::Error) -> (e: Self) {
        PoolWatcherError::Reqwest(err)
    }
}

impl FromSpecImpl<reqwest::Error> for PoolWatcherError {
    open spec fn obeys_from_spec() -> bool {
        true
    }

    open spec fn from_spec(err: reqwest::Error) -> Self {
        PoolWatcherError::Reqwest(err)
    }
}

impl From<serde_json::Error> for PoolWatcherError {
    fn from(err: serde_json::Error) -> (e: Self) {
        PoolWatcherError::Json(err)
    }
}

impl FromSpecImpl<serde_json::Error> for PoolWatcherError {
    open spec fn obeys_from_spec() -> bool {
        true
    }

    open spec fn from_spec(err: serde_json::Error) -> Self {
        PoolWatcherError::Json(err)
    }
}

} // verus!
