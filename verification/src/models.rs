//! The plain data that the library hands out and takes in.

use crate::outside::json_error_text;
use crate::outside::error_text;
use vstd::prelude::*;
use vstd::string::*;

verus! {

/// One reported difference: where it is, and the rendered value on each side.
#[derive(Debug, Clone)]
pub struct DiffEntry {
    pub key: String,
    pub source_value: String,
    pub dest_value: String,
}

/// The differences found for one named configuration.
#[derive(Debug, Clone)]
pub struct ProjectConfig {
    pub name: String,
    pub diffs: Vec<DiffEntry>,
}

/// The model of a [`DiffEntry`].
pub struct DiffRecord {
    pub key: Seq<char>,
    pub source_value: Seq<char>,
    pub dest_value: Seq<char>,
}

/// The model of a [`ProjectConfig`].
pub struct ConfigDiff {
    pub name: Seq<char>,
    pub diffs: Seq<DiffRecord>,
}

impl View for DiffEntry {
    type V = DiffRecord;

    open spec fn view(&self) -> DiffRecord {
        DiffRecord { key: self.key@, source_value: self.source_value@, dest_value: self.dest_value@ }
    }
}

/// The models of a list of entries, in order.
pub open spec fn records(entries: Seq<DiffEntry>) -> Seq<DiffRecord> {
    Seq::new(entries.len(), |i: int| entries[i]@)
}

impl View for ProjectConfig {
    type V = ConfigDiff;

    open spec fn view(&self) -> ConfigDiff {
        ConfigDiff { name: self.name@, diffs: records(self.diffs@) }
    }
}

/// Why a preview could not be made.
#[derive(Debug)]
pub enum PreviewError {
    /// The caller is not signed in.
    Unauthorized,
    /// The management API could not be reached, or refused.
    ApiError(String),
    /// A snapshot is not JSON.
    JsonError(serde_json::Error),
    /// The session store failed.
    SessionError(String),
}

/// The configurations whose differences were found, in the order in which
/// they were asked for.
#[derive(Debug)]
pub struct PreviewResponse {
    pub configs: Vec<ProjectConfig>,
}

/// The body of a response that reports a failure.
#[derive(Debug)]
pub struct ErrorResponse {
    pub error: String,
}

/// What a preview is asked for: the two projects, and for each category
/// whether it is to be compared.
#[derive(Debug)]
pub struct PreviewQuery {
    pub source_id: String,
    pub dest_id: String,
    pub auth: Option<bool>,
    pub postgrest: Option<bool>,
    pub edge_functions: Option<bool>,
    pub secrets: Option<bool>,
    pub postgres: Option<bool>,
}

/// The settings of the OAuth client.
#[derive(Clone)]
pub struct AppConfig {
    pub client_id: String,
    pub client_secret: String,
    pub redirect_url: String,
}

/// What every request handler is given.
#[derive(Clone)]
pub struct AppState {
    pub config: AppConfig,
}

/// What a login leaves in the session for the callback to check.
#[derive(Debug)]
pub struct OAuthSessionData {
    pub pkce_verifier_secret: Option<String>,
    pub csrf_token_secret: Option<String>,
}

impl Default for OAuthSessionData {
    fn default() -> (r: Self)
        ensures
            r.pkce_verifier_secret is None,
            r.csrf_token_secret is None,
    {
        OAuthSessionData { pkce_verifier_secret: None, csrf_token_secret: None }
    }
}

/// What the authorization server sends back to the callback.
#[derive(Debug)]
pub struct CallbackParams {
    pub code: String,
    pub state: String,
}

impl From<serde_json::Error> for PreviewError {
    fn from(err: serde_json::Error) -> (r: Self) {
        PreviewError::JsonError(err)
    }
}

impl vstd::std_specs::convert::FromSpecImpl<serde_json::Error> for PreviewError {
    open spec fn obeys_from_spec() -> bool {
        true
    }

    open spec fn from_spec(err: serde_json::Error) -> Self {
        PreviewError::JsonError(err)
    }
}

pub open spec fn unauthorized_text() -> Seq<char> {
    "Unauthorized"@
}

pub open spec fn json_error_prefix() -> Seq<char> {
    "JSON error: "@
}

pub open spec fn session_error_prefix() -> Seq<char> {
    "Session error: "@
}

impl PreviewError {
    /// The HTTP status with which the failure is reported.
    pub open spec fn status(self) -> int {
        match self {
            PreviewError::Unauthorized => 401,
            PreviewError::ApiError(_) => 500,
            PreviewError::JsonError(_) => 400,
            PreviewError::SessionError(_) => 500,
        }
    }

    /// The message with which the failure is reported.
    pub open spec fn message(self) -> Seq<char> {
        match self {
            PreviewError::Unauthorized => unauthorized_text(),
            PreviewError::ApiError(msg) => msg@,
            PreviewError::JsonError(err) => json_error_prefix() + json_error_text(err),
            PreviewError::SessionError(msg) => session_error_prefix() + msg@,
        }
    }

    /// The status and the body of the response that reports the failure.
    pub fn status_and_body(self) -> (r: (u16, ErrorResponse))
        ensures
            r.0 == self.status(),
            r.1.error@ == self.message(),
    {
        match self {
            PreviewError::Unauthorized => (
                401,
                ErrorResponse { error: String::from_str("Unauthorized") },
            ),
            PreviewError::ApiError(msg) => (500, ErrorResponse { error: msg }),
            PreviewError::JsonError(err) => {
                let text = error_text(&err);
                (400, ErrorResponse { error: String::from_str("JSON error: ").concat(text.as_str()) })
            },
            PreviewError::SessionError(msg) => (
                500,
                ErrorResponse { error: String::from_str("Session error: ").concat(msg.as_str()) },
            ),
        }
    }
}

} // verus!
