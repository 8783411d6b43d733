//! Settings, message kinds and errors of the memory service client.
use vstd::prelude::*;
use crate::text::{append_str, chars_of, decimal, decimal_string, string_from, string_of, trim_end_char, trim_end_char_exec};

verus! {

/// Connection settings of the memory service client.
#[derive(Debug, Clone, PartialEq, Eq)]
pub struct XavierClientConfig {
    pub api_base_url: String,
    pub ws_url: String,
    pub auth_token: Option<String>,
    pub timeout_ms: u64,
}

impl Default for XavierClientConfig {
    fn default() -> (r: Self)
        ensures
            r.api_base_url@ == "http://127.0.0.1:8080"@,
            r.ws_url@ == "ws://127.0.0.1:8080/ws"@,
            r.auth_token is None,
            r.timeout_ms == 5000,
    {
        XavierClientConfig {
            api_base_url: string_from("http://127.0.0.1:8080"),
            ws_url: string_from("ws://127.0.0.1:8080/ws"),
            auth_token: None,
            timeout_ms: 5000,
        }
    }
}

/// Kind of a real-time sync event.
#[derive(Debug, Clone, Copy, PartialEq, Eq, Structural)]
pub enum SyncEventType {
    Created,
    Updated,
    Deleted,
    BatchSynced,
}

/// Action of a sync control message.
#[derive(Debug, Clone, Copy, PartialEq, Eq, Structural)]
pub enum SyncAction {
    Subscribe,
    Unsubscribe,
    Ping,
    Pong,
    Event,
}

/// Errors of the memory service client.
#[derive(Debug, Clone, PartialEq, Eq)]
pub enum XavierClientError {
    HttpError(String),
    JsonError(String),
    WebSocketError(String),
    ConfigError(String),
    ServerError { status: u16, message: String },
}

/// The message shown for a client error.
pub open spec fn client_error_message(e: XavierClientError) -> Seq<char> {
    match e {
        XavierClientError::HttpError(m) => "HTTP request failed: "@ + m@,
        XavierClientError::JsonError(m) => "JSON serialization error: "@ + m@,
        XavierClientError::WebSocketError(m) => "WebSocket error: "@ + m@,
        XavierClientError::ConfigError(m) => "Configuration error: "@ + m@,
        XavierClientError::ServerError { status, message } => "Server returned status "@ + decimal(
            status as nat,
        ) + ": "@ + message@,
    }
}

impl XavierClientError {
    /// The message shown for the error.
    pub fn to_string(&self) -> (r: String)
        ensures
            r@ == client_error_message(*self),
    {
        match self {
            XavierClientError::HttpError(m) => {
                let mut s = string_from("HTTP request failed: ");
                append_str(&mut s, m.as_str());
                s
            },
            XavierClientError::JsonError(m) => {
                let mut s = string_from("JSON serialization error: ");
                append_str(&mut s, m.as_str());
                s
            },
            XavierClientError::WebSocketError(m) => {
                let mut s = string_from("WebSocket error: ");
                append_str(&mut s, m.as_str());
                s
            },
            XavierClientError::ConfigError(m) => {
                let mut s = string_from("Configuration error: ");
                append_str(&mut s, m.as_str());
                s
            },
            XavierClientError::ServerError { status, message } => {
                let mut s = string_from("Server returned status ");
                let d = decimal_string(*status as u64);
                append_str(&mut s, d.as_str());
                append_str(&mut s, ": ");
                append_str(&mut s, message.as_str());
                s
            },
        }
    }
}

/// Checks the settings before a client is built: the API base URL may not be
/// empty.
pub fn check_client_config(config: &XavierClientConfig) -> (r: Result<(), XavierClientError>)
    ensures
        config.api_base_url@.len() == 0 <==> r is Err,
        r matches Err(e) ==> e matches XavierClientError::ConfigError(m) && m@
            == "API base URL cannot be empty"@,
{
    if config.api_base_url.as_str().unicode_len() == 0 {
        Err(XavierClientError::ConfigError(string_from("API base URL cannot be empty")))
    } else {
        Ok(())
    }
}

/// The message of a sync frame whose action is not an event.
pub open spec fn not_event_message() -> Seq<char> {
    "Message action is not SyncAction::Event"@
}

/// Checks that a sync message carries an event, as extracting one requires.
pub fn check_event_action(action: SyncAction) -> (r: Result<(), XavierClientError>)
    ensures
        r is Ok <==> action == SyncAction::Event,
        r matches Err(e) ==> e matches XavierClientError::WebSocketError(m) && m@
            == not_event_message(),
{
    if action == SyncAction::Event {
        Ok(())
    } else {
        Err(XavierClientError::WebSocketError(string_from("Message action is not SyncAction::Event")))
    }
}

/// The endpoint `path` under the base URL, without doubled slashes.
pub open spec fn endpoint(base: Seq<char>, path: Seq<char>) -> Seq<char> {
    trim_end_char(base, '/') + path
}

/// Builds the URL of an endpoint under the base URL.
pub fn endpoint_url(base: &str, path: &str) -> (r: String)
    ensures
        r@ == endpoint(base@, path@),
{
    let b = chars_of(base);
    let t = trim_end_char_exec(&b, '/');
    let mut s = string_of(&t);
    append_str(&mut s, path);
    s
}

} // verus!
