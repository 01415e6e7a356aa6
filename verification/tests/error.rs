use orion::error::{classify_error, classify_lowered, map_error, ConfigIssue, SessionError};

#[test]
fn auth_patterns_give_auth_failed() {
    assert_eq!(classify_error("Authentication failed (username/password)"), SessionError::AuthFailed);
    assert_eq!(classify_error("Permission denied (publickey)"), SessionError::AuthFailed);
    assert_eq!(classify_error("unauthorized"), SessionError::AuthFailed);
}

#[test]
fn timeout_patterns_give_timeout() {
    assert_eq!(classify_error("operation timeout"), SessionError::Timeout);
    assert_eq!(classify_error("Connection timed out (os error 110)"), SessionError::Timeout);
}

#[test]
fn unreachable_patterns_give_unreachable() {
    assert_eq!(classify_error("Unable to open TCP connection"), SessionError::Unreachable);
    assert_eq!(classify_error("unable to open channel"), SessionError::Unreachable);
    assert_eq!(classify_error("Network is unreachable"), SessionError::Unreachable);
    assert_eq!(classify_error("Connection refused (os error 111)"), SessionError::Unreachable);
}

#[test]
fn unmatched_message_passes_through_verbatim() {
    assert_eq!(
        classify_error("Channel Closed Unexpectedly"),
        SessionError::Other("Channel Closed Unexpectedly".to_string())
    );
    assert_eq!(classify_error(""), SessionError::Other(String::new()));
}

#[test]
fn classification_looks_at_the_lower_case_form() {
    assert_eq!(classify_error("AUTH REJECTED"), SessionError::AuthFailed);
    assert_eq!(classify_error("TIMED OUT"), SessionError::Timeout);
    assert_eq!(classify_error("CONNECTION REFUSED"), SessionError::Unreachable);
    // The Kelvin sign lowers to an ordinary `k`; no pattern holds one, so
    // only the ASCII letters decide here.
    assert_eq!(classify_error("HOST UNREACHABLE"), SessionError::Unreachable);
}

#[test]
fn earlier_kinds_win_over_later_ones() {
    assert_eq!(classify_error("auth timeout"), SessionError::AuthFailed);
    assert_eq!(classify_error("timed out: connection refused"), SessionError::Timeout);
}

#[test]
fn classify_lowered_uses_the_given_lower_case_text() {
    assert_eq!(classify_lowered("permission denied", "Permission Denied"), SessionError::AuthFailed);
    assert_eq!(
        classify_lowered("PERMISSION DENIED", "PERMISSION DENIED"),
        SessionError::Other("PERMISSION DENIED".to_string())
    );
    assert_eq!(classify_lowered("x", "Raw"), SessionError::Other("Raw".to_string()));
}

#[test]
fn map_error_gives_the_text_of_the_kind() {
    assert_eq!(map_error("Authentication failed"), "Authentication Failed");
    assert_eq!(map_error("socket timeout"), "Connection Timed Out");
    assert_eq!(map_error("Connection refused"), "host unreachable or port closed");
    assert_eq!(map_error("something else"), "something else");
}

#[test]
fn every_error_has_its_message() {
    assert_eq!(
        SessionError::Config(ConfigIssue::UnsupportedAuthType).message(),
        "unsupported auth type"
    );
    assert_eq!(SessionError::Config(ConfigIssue::MissingKeyPath).message(), "privateKeyPath required");
    assert_eq!(
        SessionError::Config(ConfigIssue::MissingCredential).message(),
        "no credential for device"
    );
    assert_eq!(SessionError::Unreachable.message(), "host unreachable or port closed");
    assert_eq!(SessionError::AuthFailed.message(), "Authentication Failed");
    assert_eq!(SessionError::Timeout.message(), "Connection Timed Out");
    assert_eq!(SessionError::NotFound.message(), "session not found");
    assert_eq!(SessionError::Parse.message(), "failed to parse cpu");
    assert_eq!(
        SessionError::RemoteCommandFailed { exit_status: 1, message: "sudo: a password is required".to_string() }
            .message(),
        "sudo: a password is required"
    );
    assert_eq!(SessionError::Other("raw".to_string()).message(), "raw");
}
