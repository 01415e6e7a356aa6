//! Authentication against one device: which strategy a credential selects,
//! and the order of the transport steps with the failure that each one
//! raises. The embedding program performs each step and reports how it went.

use crate::error::{classify, classify_error, ConfigIssue, ErrorModel, SessionError};
use crate::text::lowercase;
use crate::types::{opt_text, SshConfig};
use vstd::prelude::*;
use vstd::string::*;

verus! {

/// Seconds allowed for each connect attempt while authenticating.
pub const CONNECT_TIMEOUT_SECS: u64 = 5;

/// Seconds allowed for each connect attempt of a reachability probe.
pub const PROBE_TIMEOUT_SECS: u64 = 3;

/// The address to try next among the `count` that a host resolved to,
/// where the attempt on address `failed` has just failed (`None` before
/// the first attempt): the one behind it, or none where the list is
/// exhausted. The first attempt that succeeds ends the walk.
pub open spec fn next_address(count: usize, failed: Option<usize>) -> Option<usize> {
    match failed {
        None => if count > 0 {
            Some(0usize)
        } else {
            None
        },
        Some(i) => if i + 1 < count {
            Some((i + 1) as usize)
        } else {
            None
        },
    }
}

/// Decides which resolved address a connect tries next; `None` means that
/// the host is unreachable.
pub fn dial_next(count: usize, failed: Option<usize>) -> (next: Option<usize>)
    ensures
        next == next_address(count, failed),
{
    match failed {
        None => if count > 0 {
            Some(0)
        } else {
            None
        },
        Some(i) => if i < count && i + 1 < count {
            Some(i + 1)
        } else {
            None
        },
    }
}

/// The address tried at the `k`-th attempt of a walk in which every
/// attempt so far has failed.
pub open spec fn attempt(count: usize, k: nat) -> Option<usize>
    decreases k,
{
    if k == 0 {
        next_address(count, None)
    } else {
        match attempt(count, (k - 1) as nat) {
            Some(i) => next_address(count, Some(i)),
            None => None,
        }
    }
}

/// The addresses are tried in the order in which they were resolved, each
/// once, and after the last the walk is over.
pub proof fn lemma_addresses_in_order(count: usize, k: nat)
    ensures
        attempt(count, k) == if k < count {
            Some(k as usize)
        } else {
            None::<usize>
        },
    decreases k,
{
    if k > 0 {
        lemma_addresses_in_order(count, (k - 1) as nat);
    }
}

/// The strategy to authenticate with, and what it submits.
#[derive(Debug, Clone, PartialEq, Eq)]
pub enum AuthMethod {
    Password { username: String, password: String },
    PublicKey { username: String, key_path: String, passphrase: Option<String> },
}

/// The mathematical value of an [`AuthMethod`].
pub enum AuthMethodModel {
    Password { username: Seq<char>, password: Seq<char> },
    PublicKey { username: Seq<char>, key_path: Seq<char>, passphrase: Option<Seq<char>> },
}

impl View for AuthMethod {
    type V = AuthMethodModel;

    open spec fn view(&self) -> AuthMethodModel {
        match self {
            AuthMethod::Password { username, password } => AuthMethodModel::Password {
                username: username@,
                password: password@,
            },
            AuthMethod::PublicKey { username, key_path, passphrase } => AuthMethodModel::PublicKey {
                username: username@,
                key_path: key_path@,
                passphrase: opt_text(*passphrase),
            },
        }
    }
}

/// The strategy that `cfg` selects, or what is wrong with it. A password
/// credential without a password submits the text `<no-password>`; with key
/// authentication the password field is the key's passphrase.
pub open spec fn chosen_method(cfg: SshConfig) -> Result<AuthMethodModel, ConfigIssue> {
    if cfg.auth_type@ == "password"@ {
        Ok(
            AuthMethodModel::Password {
                username: cfg.username@,
                password: match cfg.password {
                    Some(p) => p@,
                    None => "<no-password>"@,
                },
            },
        )
    } else if cfg.auth_type@ == "key"@ {
        match cfg.private_key_path {
            Some(path) => Ok(
                AuthMethodModel::PublicKey {
                    username: cfg.username@,
                    key_path: path@,
                    passphrase: opt_text(cfg.password),
                },
            ),
            None => Err(ConfigIssue::MissingKeyPath),
        }
    } else {
        Err(ConfigIssue::UnsupportedAuthType)
    }
}

/// Checks the authentication configuration of `cfg` without touching the
/// network, and gives the strategy that it selects.
pub fn validate_credential_cfg(cfg: &SshConfig) -> (r: Result<AuthMethod, SessionError>)
    ensures
        match r {
            Ok(method) => chosen_method(*cfg) == Ok::<AuthMethodModel, ConfigIssue>(method@),
            Err(e) => chosen_method(*cfg) matches Err(issue) && e@ == ErrorModel::Config(issue),
        },
{
    if cfg.auth_type == "password".to_owned() {
        let password = match &cfg.password {
            Some(p) => p.clone(),
            None => "<no-password>".to_owned(),
        };
        Ok(AuthMethod::Password { username: cfg.username.clone(), password })
    } else if cfg.auth_type == "key".to_owned() {
        match &cfg.private_key_path {
            Some(path) => {
                let passphrase = match &cfg.password {
                    Some(p) => Some(p.clone()),
                    None => None,
                };
                Ok(
                    AuthMethod::PublicKey {
                        username: cfg.username.clone(),
                        key_path: path.clone(),
                        passphrase,
                    },
                )
            },
            None => Err(SessionError::Config(ConfigIssue::MissingKeyPath)),
        }
    } else {
        Err(SessionError::Config(ConfigIssue::UnsupportedAuthType))
    }
}

/// The credential to connect with: the one that the store holds for the
/// device, or a configuration error where it holds none.
pub fn require_credential(stored: Option<SshConfig>) -> (r: Result<SshConfig, SessionError>)
    ensures
        match r {
            Ok(cfg) => stored == Some(cfg),
            Err(e) => stored is None && e@ == ErrorModel::Config(ConfigIssue::MissingCredential),
        },
{
    match stored {
        Some(cfg) => Ok(cfg),
        None => Err(SessionError::Config(ConfigIssue::MissingCredential)),
    }
}

/// How far an authentication has come.
#[derive(Debug, Clone, Copy, PartialEq, Eq, Structural)]
pub enum AuthState {
    /// Nothing was done yet.
    Start,
    /// Connect attempts on the resolved addresses are under way.
    Connecting,
    /// The protocol handshake is under way.
    Handshaking,
    /// The selected strategy is submitting the credentials.
    Authenticating,
    /// The connection is being asked whether it is authenticated.
    Verifying,
    /// The authentication has succeeded or failed.
    Finished,
}

/// How the step that was asked for went.
#[derive(Debug, Clone, PartialEq, Eq)]
pub enum AuthEvent {
    /// The caller asks to authenticate.
    Begin,
    /// The step completed.
    Done,
    /// The step failed with the transport's message. For the connect step:
    /// the host did not resolve, or no address accepted the connection.
    Failed(String),
    /// What the connection says about being authenticated.
    Authenticated(bool),
}

/// The mathematical value of an [`AuthEvent`].
pub enum AuthEventModel {
    Begin,
    Done,
    Failed(Seq<char>),
    Authenticated(bool),
}

impl View for AuthEvent {
    type V = AuthEventModel;

    open spec fn view(&self) -> AuthEventModel {
        match self {
            AuthEvent::Begin => AuthEventModel::Begin,
            AuthEvent::Done => AuthEventModel::Done,
            AuthEvent::Failed(msg) => AuthEventModel::Failed(msg@),
            AuthEvent::Authenticated(b) => AuthEventModel::Authenticated(*b),
        }
    }
}

/// What the embedding program does next.
#[derive(Debug, Clone, PartialEq, Eq)]
pub enum AuthAction {
    /// Resolve the host and try each address in order, the first success
    /// winning, each attempt bounded by the timeout.
    Connect { host: String, port: u16, timeout_secs: u64 },
    /// Perform the protocol handshake on the socket.
    Handshake,
    /// Submit the credentials.
    Authenticate(AuthMethod),
    /// Ask the connection whether it is authenticated.
    CheckAuthenticated,
    /// The connection is authenticated: hand it out.
    Succeed,
    /// Give up with this error.
    Fail(SessionError),
}

/// The mathematical value of an [`AuthAction`].
pub enum AuthActionModel {
    Connect { host: Seq<char>, port: u16, timeout_secs: u64 },
    Handshake,
    Authenticate(AuthMethodModel),
    CheckAuthenticated,
    Succeed,
    Fail(ErrorModel),
}

impl View for AuthAction {
    type V = AuthActionModel;

    open spec fn view(&self) -> AuthActionModel {
        match self {
            AuthAction::Connect { host, port, timeout_secs } => AuthActionModel::Connect {
                host: host@,
                port: *port,
                timeout_secs: *timeout_secs,
            },
            AuthAction::Handshake => AuthActionModel::Handshake,
            AuthAction::Authenticate(method) => AuthActionModel::Authenticate(method@),
            AuthAction::CheckAuthenticated => AuthActionModel::CheckAuthenticated,
            AuthAction::Succeed => AuthActionModel::Succeed,
            AuthAction::Fail(e) => AuthActionModel::Fail(e@),
        }
    }
}

/// The error for a failure before the network layer stands: a timeout where
/// the message says so, else unreachable.
pub open spec fn network_failure(lowered: Seq<char>, raw: Seq<char>) -> ErrorModel {
    if classify(lowered, raw) is Timeout {
        ErrorModel::Timeout
    } else {
        ErrorModel::Unreachable
    }
}

/// The text of the error for an event that the state does not expect.
pub open spec fn out_of_order_text() -> Seq<char> {
    "transport event out of order"@
}

/// The step function of authentication: the state and action that follow
/// `event` in `state`.
///
/// The configuration is checked first, so a credential that selects no
/// strategy fails before anything is connected. Then come connect,
/// handshake, the credentials, and the question whether the connection is
/// authenticated; the first step that fails ends the run.
pub open spec fn auth_transition(cfg: SshConfig, state: AuthState, event: AuthEventModel) -> (
    AuthState,
    AuthActionModel,
) {
    match (state, event) {
        (AuthState::Start, AuthEventModel::Begin) => match chosen_method(cfg) {
            Ok(_) => (
                AuthState::Connecting,
                AuthActionModel::Connect {
                    host: cfg.host@,
                    port: cfg.port,
                    timeout_secs: CONNECT_TIMEOUT_SECS,
                },
            ),
            Err(issue) => (AuthState::Finished, AuthActionModel::Fail(ErrorModel::Config(issue))),
        },
        (AuthState::Connecting, AuthEventModel::Done) => (
            AuthState::Handshaking,
            AuthActionModel::Handshake,
        ),
        (AuthState::Connecting, AuthEventModel::Failed(msg)) => (
            AuthState::Finished,
            AuthActionModel::Fail(network_failure(lowercase(msg), msg)),
        ),
        (AuthState::Handshaking, AuthEventModel::Done) => match chosen_method(cfg) {
            Ok(method) => (AuthState::Authenticating, AuthActionModel::Authenticate(method)),
            Err(issue) => (AuthState::Finished, AuthActionModel::Fail(ErrorModel::Config(issue))),
        },
        (AuthState::Handshaking, AuthEventModel::Failed(msg)) => (
            AuthState::Finished,
            AuthActionModel::Fail(network_failure(lowercase(msg), msg)),
        ),
        (AuthState::Authenticating, AuthEventModel::Done) => (
            AuthState::Verifying,
            AuthActionModel::CheckAuthenticated,
        ),
        (AuthState::Authenticating, AuthEventModel::Failed(msg)) => (
            AuthState::Finished,
            AuthActionModel::Fail(classify(lowercase(msg), msg)),
        ),
        (AuthState::Verifying, AuthEventModel::Authenticated(true)) => (
            AuthState::Finished,
            AuthActionModel::Succeed,
        ),
        (AuthState::Verifying, AuthEventModel::Authenticated(false)) => (
            AuthState::Finished,
            AuthActionModel::Fail(ErrorModel::AuthFailed),
        ),
        _ => (AuthState::Finished, AuthActionModel::Fail(ErrorModel::Other(out_of_order_text()))),
    }
}

fn out_of_order() -> (r: (AuthState, AuthAction))
    ensures
        r.0 == AuthState::Finished,
        r.1@ == AuthActionModel::Fail(ErrorModel::Other(out_of_order_text())),
{
    (
        AuthState::Finished,
        AuthAction::Fail(SessionError::Other("transport event out of order".to_owned())),
    )
}

fn network_error(msg: &str) -> (e: SessionError)
    ensures
        e@ == network_failure(lowercase(msg@), msg@),
{
    match classify_error(msg) {
        SessionError::Timeout => SessionError::Timeout,
        _ => SessionError::Unreachable,
    }
}

/// One step of authentication: takes the state and how the last action
/// went, and gives the next state and action.
pub fn authenticate(cfg: &SshConfig, state: AuthState, event: AuthEvent) -> (r: (
    AuthState,
    AuthAction,
))
    ensures
        (r.0, r.1@) == auth_transition(*cfg, state, event@),
{
    match state {
        AuthState::Start => match event {
            AuthEvent::Begin => match validate_credential_cfg(cfg) {
                Ok(_) => (
                    AuthState::Connecting,
                    AuthAction::Connect {
                        host: cfg.host.clone(),
                        port: cfg.port,
                        timeout_secs: CONNECT_TIMEOUT_SECS,
                    },
                ),
                Err(e) => (AuthState::Finished, AuthAction::Fail(e)),
            },
            _ => out_of_order(),
        },
        AuthState::Connecting => match event {
            AuthEvent::Done => (AuthState::Handshaking, AuthAction::Handshake),
            AuthEvent::Failed(msg) => (
                AuthState::Finished,
                AuthAction::Fail(network_error(msg.as_str())),
            ),
            _ => out_of_order(),
        },
        AuthState::Handshaking => match event {
            AuthEvent::Done => match validate_credential_cfg(cfg) {
                Ok(method) => (AuthState::Authenticating, AuthAction::Authenticate(method)),
                Err(e) => (AuthState::Finished, AuthAction::Fail(e)),
            },
            AuthEvent::Failed(msg) => (
                AuthState::Finished,
                AuthAction::Fail(network_error(msg.as_str())),
            ),
            _ => out_of_order(),
        },
        AuthState::Authenticating => match event {
            AuthEvent::Done => (AuthState::Verifying, AuthAction::CheckAuthenticated),
            AuthEvent::Failed(msg) => (
                AuthState::Finished,
                AuthAction::Fail(classify_error(msg.as_str())),
            ),
            _ => out_of_order(),
        },
        AuthState::Verifying => match event {
            AuthEvent::Authenticated(true) => (AuthState::Finished, AuthAction::Succeed),
            AuthEvent::Authenticated(false) => (
                AuthState::Finished,
                AuthAction::Fail(SessionError::AuthFailed),
            ),
            _ => out_of_order(),
        },
        AuthState::Finished => out_of_order(),
    }
}

/// A credential whose authentication type is neither `password` nor `key`
/// fails with a configuration error on the first step, before any connect
/// is asked for.
pub proof fn lemma_unsupported_auth_fails_first(cfg: SshConfig)
    requires
        cfg.auth_type@ != "password"@,
        cfg.auth_type@ != "key"@,
    ensures
        auth_transition(cfg, AuthState::Start, AuthEventModel::Begin) == (
            AuthState::Finished,
            AuthActionModel::Fail(ErrorModel::Config(ConfigIssue::UnsupportedAuthType)),
        ),
{
}

/// The network is only touched for a credential that selects a strategy:
/// whatever the state and the event, a connect, a handshake or a submission
/// of credentials is only asked for under a valid configuration.
pub proof fn lemma_network_needs_valid_config(
    cfg: SshConfig,
    state: AuthState,
    event: AuthEventModel,
)
    requires
        chosen_method(cfg) is Err,
    ensures
        state == AuthState::Start ==> auth_transition(cfg, state, event).0 == AuthState::Finished,
        !(auth_transition(cfg, state, event).1 is Connect),
        !(auth_transition(cfg, state, event).1 is Authenticate),
{
}

/// Success comes only from a connection that reports itself authenticated,
/// asked after the credentials were accepted.
pub proof fn lemma_success_needs_verification(
    cfg: SshConfig,
    state: AuthState,
    event: AuthEventModel,
)
    requires
        auth_transition(cfg, state, event).1 is Succeed,
    ensures
        state == AuthState::Verifying,
        event == AuthEventModel::Authenticated(true),
{
}

/// Where an authentication stands after the events of `events`, reported
/// in order from the start, and the last action it asked for.
pub open spec fn auth_run(cfg: SshConfig, events: Seq<AuthEventModel>) -> (
    AuthState,
    Option<AuthActionModel>,
)
    decreases events.len(),
{
    if events.len() == 0 {
        (AuthState::Start, None)
    } else {
        let before = auth_run(cfg, events.drop_last());
        let step = auth_transition(cfg, before.0, events.last());
        (step.0, Some(step.1))
    }
}

/// Each state short of the end is reached by one history only: the steps
/// before it, each completed, under a valid configuration.
pub proof fn lemma_auth_history(cfg: SshConfig, events: Seq<AuthEventModel>)
    ensures
        auth_run(cfg, events).0 == AuthState::Start ==> events.len() == 0,
        auth_run(cfg, events).0 == AuthState::Connecting ==> chosen_method(cfg) is Ok && events
            == seq![AuthEventModel::Begin],
        auth_run(cfg, events).0 == AuthState::Handshaking ==> chosen_method(cfg) is Ok && events
            == seq![AuthEventModel::Begin, AuthEventModel::Done],
        auth_run(cfg, events).0 == AuthState::Authenticating ==> chosen_method(cfg) is Ok
            && events == seq![AuthEventModel::Begin, AuthEventModel::Done, AuthEventModel::Done],
        auth_run(cfg, events).0 == AuthState::Verifying ==> chosen_method(cfg) is Ok && events
            == seq![
            AuthEventModel::Begin,
            AuthEventModel::Done,
            AuthEventModel::Done,
            AuthEventModel::Done,
        ],
    decreases events.len(),
{
    if events.len() > 0 {
        let front = events.drop_last();
        lemma_auth_history(cfg, front);
        assert(events =~= front.push(events.last()));
        let state = auth_run(cfg, events).0;
        if state == AuthState::Connecting {
            assert(events =~= seq![AuthEventModel::Begin]);
        } else if state == AuthState::Handshaking {
            assert(events =~= seq![AuthEventModel::Begin, AuthEventModel::Done]);
        } else if state == AuthState::Authenticating {
            assert(events =~= seq![
                AuthEventModel::Begin,
                AuthEventModel::Done,
                AuthEventModel::Done,
            ]);
        } else if state == AuthState::Verifying {
            assert(events =~= seq![
                AuthEventModel::Begin,
                AuthEventModel::Done,
                AuthEventModel::Done,
                AuthEventModel::Done,
            ]);
        }
    }
}

/// An authentication succeeds on one history only: a valid configuration,
/// then connect, handshake and credentials each completed in this order,
/// then a connection that reports itself authenticated.
pub proof fn lemma_success_needs_every_step(cfg: SshConfig, events: Seq<AuthEventModel>)
    requires
        auth_run(cfg, events).1 == Some(AuthActionModel::Succeed),
    ensures
        chosen_method(cfg) is Ok,
        events == seq![
            AuthEventModel::Begin,
            AuthEventModel::Done,
            AuthEventModel::Done,
            AuthEventModel::Done,
            AuthEventModel::Authenticated(true),
        ],
{
    let front = events.drop_last();
    lemma_auth_history(cfg, front);
    lemma_success_needs_verification(cfg, auth_run(cfg, front).0, events.last());
    assert(events =~= front.push(events.last()));
}

/// A finished authentication stays finished and never succeeds afterwards.
pub proof fn lemma_finished_is_final(cfg: SshConfig, event: AuthEventModel)
    ensures
        auth_transition(cfg, AuthState::Finished, event).0 == AuthState::Finished,
        auth_transition(cfg, AuthState::Finished, event).1 is Fail,
{
}

} // verus!
