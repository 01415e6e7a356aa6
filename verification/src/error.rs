//! The kinds of failure that the session layer reports, and the classifier
//! that sorts raw transport messages into them.

use crate::text::{contains, contains_text, lowercase, to_lowercase};
use vstd::prelude::*;
use vstd::string::*;

verus! {

/// What is wrong with an authentication configuration.
#[derive(Debug, Clone, Copy, PartialEq, Eq, Structural)]
pub enum ConfigIssue {
    /// The authentication type is neither `password` nor `key`.
    UnsupportedAuthType,
    /// Key authentication was asked for without a private key path.
    MissingKeyPath,
    /// No credential is stored for the device.
    MissingCredential,
}

/// A failure of a session operation.
#[derive(Debug, Clone, PartialEq, Eq)]
pub enum SessionError {
    /// The authentication configuration is invalid or missing.
    Config(ConfigIssue),
    /// Name resolution, connect or handshake failed: no network layer.
    Unreachable,
    /// The credentials were rejected, or the session is not authenticated.
    AuthFailed,
    /// Connect or handshake took longer than allowed.
    Timeout,
    /// No session is registered under the given identifier.
    NotFound,
    /// The command ran and returned a non-zero exit status, for an operation
    /// that treats this as a failure.
    RemoteCommandFailed { exit_status: i32, message: String },
    /// Required remote output did not have the expected shape.
    Parse,
    /// A transport message that fits no kind, passed through verbatim.
    Other(String),
}

/// The mathematical value of a [`SessionError`].
pub enum ErrorModel {
    Config(ConfigIssue),
    Unreachable,
    AuthFailed,
    Timeout,
    NotFound,
    RemoteCommandFailed { exit_status: i32, message: Seq<char> },
    Parse,
    Other(Seq<char>),
}

impl View for SessionError {
    type V = ErrorModel;

    open spec fn view(&self) -> ErrorModel {
        match self {
            SessionError::Config(issue) => ErrorModel::Config(*issue),
            SessionError::Unreachable => ErrorModel::Unreachable,
            SessionError::AuthFailed => ErrorModel::AuthFailed,
            SessionError::Timeout => ErrorModel::Timeout,
            SessionError::NotFound => ErrorModel::NotFound,
            SessionError::RemoteCommandFailed { exit_status, message } => {
                ErrorModel::RemoteCommandFailed { exit_status: *exit_status, message: message@ }
            },
            SessionError::Parse => ErrorModel::Parse,
            SessionError::Other(raw) => ErrorModel::Other(raw@),
        }
    }
}

/// The kind that a transport message falls under, decided on its lower-case
/// form `lowered`; a message that fits none is kept as it came (`raw`).
pub open spec fn classify(lowered: Seq<char>, raw: Seq<char>) -> ErrorModel {
    if contains_text(lowered, "auth"@) || contains_text(lowered, "permission denied"@) {
        ErrorModel::AuthFailed
    } else if contains_text(lowered, "timeout"@) || contains_text(lowered, "timed out"@) {
        ErrorModel::Timeout
    } else if contains_text(lowered, "unable to open"@) || contains_text(lowered, "unreachable"@)
        || contains_text(lowered, "connection refused"@) {
        ErrorModel::Unreachable
    } else {
        ErrorModel::Other(raw)
    }
}

/// The text shown to a caller for an error.
pub open spec fn message_text(e: ErrorModel) -> Seq<char> {
    match e {
        ErrorModel::Config(ConfigIssue::UnsupportedAuthType) => "unsupported auth type"@,
        ErrorModel::Config(ConfigIssue::MissingKeyPath) => "privateKeyPath required"@,
        ErrorModel::Config(ConfigIssue::MissingCredential) => "no credential for device"@,
        ErrorModel::Unreachable => "host unreachable or port closed"@,
        ErrorModel::AuthFailed => "Authentication Failed"@,
        ErrorModel::Timeout => "Connection Timed Out"@,
        ErrorModel::NotFound => "session not found"@,
        ErrorModel::RemoteCommandFailed { exit_status, message } => message,
        ErrorModel::Parse => "failed to parse cpu"@,
        ErrorModel::Other(raw) => raw,
    }
}

impl SessionError {
    /// The text shown to a caller for this error.
    pub fn message(&self) -> (msg: String)
        ensures
            msg@ == message_text(self@),
    {
        match self {
            SessionError::Config(ConfigIssue::UnsupportedAuthType) => {
                "unsupported auth type".to_owned()
            },
            SessionError::Config(ConfigIssue::MissingKeyPath) => {
                "privateKeyPath required".to_owned()
            },
            SessionError::Config(ConfigIssue::MissingCredential) => {
                "no credential for device".to_owned()
            },
            SessionError::Unreachable => "host unreachable or port closed".to_owned(),
            SessionError::AuthFailed => "Authentication Failed".to_owned(),
            SessionError::Timeout => "Connection Timed Out".to_owned(),
            SessionError::NotFound => "session not found".to_owned(),
            SessionError::RemoteCommandFailed { exit_status, message } => message.clone(),
            SessionError::Parse => "failed to parse cpu".to_owned(),
            SessionError::Other(raw) => raw.clone(),
        }
    }
}

/// Classifies the transport message `raw`, whose lower-case form is
/// `lowered`.
pub fn classify_lowered(lowered: &str, raw: &str) -> (e: SessionError)
    ensures
        e@ == classify(lowered@, raw@),
{
    if contains(lowered, "auth") || contains(lowered, "permission denied") {
        SessionError::AuthFailed
    } else if contains(lowered, "timeout") || contains(lowered, "timed out") {
        SessionError::Timeout
    } else if contains(lowered, "unable to open") || contains(lowered, "unreachable") || contains(
        lowered,
        "connection refused",
    ) {
        SessionError::Unreachable
    } else {
        SessionError::Other(raw.to_owned())
    }
}

/// Classifies a raw transport or library message by the patterns in its
/// lower-case form.
pub fn classify_error(raw: &str) -> (e: SessionError)
    ensures
        e@ == classify(lowercase(raw@), raw@),
{
    let lowered = to_lowercase(raw);
    classify_lowered(lowered.as_str(), raw)
}

/// The caller-facing text for a raw transport message: the text of its
/// kind, or the message itself where it fits none.
pub fn map_error(raw: &str) -> (msg: String)
    ensures
        msg@ == message_text(classify(lowercase(raw@), raw@)),
{
    classify_error(raw).message()
}

} // verus!
