use orion::error::SessionError;
use orion::executor::{run_step, CommandOutput, RunAction, RunEvent, RunState};
use orion::registry::{ConnectDecision, MonitorStep, ProbeOutcome, SessionRegistry};
use orion::stream::{to_publish, LoopStep, StartDecision, StreamController};
use orion::system::shutdown_outcome;
use orion::telemetry::CpuCache;
use orion::transport::{authenticate, AuthAction, AuthEvent, AuthState};
use orion::types::SshConfig;

/// A transport that answers every step from a script and counts how often
/// an authentication was started.
struct StubTransport {
    connect_ok: bool,
    handshake_ok: bool,
    auth_error: Option<&'static str>,
    authenticated: bool,
    authentications: u32,
    connects: u32,
}

impl StubTransport {
    fn accepting() -> Self {
        StubTransport {
            connect_ok: true,
            handshake_ok: true,
            auth_error: None,
            authenticated: true,
            authentications: 0,
            connects: 0,
        }
    }

    fn authenticate(&mut self, cfg: &SshConfig) -> Result<u32, SessionError> {
        self.authentications += 1;
        let mut state = AuthState::Start;
        let mut event = AuthEvent::Begin;
        loop {
            let (next, action) = authenticate(cfg, state, event);
            state = next;
            event = match action {
                AuthAction::Connect { .. } => {
                    self.connects += 1;
                    if self.connect_ok {
                        AuthEvent::Done
                    } else {
                        AuthEvent::Failed("Unable to open TCP connection".to_string())
                    }
                }
                AuthAction::Handshake => {
                    if self.handshake_ok {
                        AuthEvent::Done
                    } else {
                        AuthEvent::Failed("Failed getting banner".to_string())
                    }
                }
                AuthAction::Authenticate(_) => match self.auth_error {
                    None => AuthEvent::Done,
                    Some(msg) => AuthEvent::Failed(msg.to_string()),
                },
                AuthAction::CheckAuthenticated => AuthEvent::Authenticated(self.authenticated),
                AuthAction::Succeed => return Ok(self.authentications),
                AuthAction::Fail(e) => return Err(e),
            };
        }
    }
}

fn connect(
    registry: &mut SessionRegistry<u32>,
    transport: &mut StubTransport,
    id: &str,
    cfg: &SshConfig,
) -> Result<String, SessionError> {
    match registry.begin_connect(id) {
        ConnectDecision::AlreadyConnected => Ok(id.to_string()),
        ConnectDecision::Authenticate => {
            let outcome = transport.authenticate(cfg);
            registry.complete_connect(id.to_string(), outcome)
        }
    }
}

fn jetson() -> SshConfig {
    SshConfig {
        host: "10.0.0.5".to_string(),
        port: 22,
        username: "jetson".to_string(),
        auth_type: "password".to_string(),
        private_key_path: None,
        password: Some("x".to_string()),
    }
}

fn run(command: &str, script: &[RunEvent]) -> Result<CommandOutput, SessionError> {
    let mut state = RunState::Start;
    let mut event = RunEvent::Begin;
    let mut next_reply = 0;
    loop {
        let (next, action) = run_step(command, state, event);
        state = next;
        match action {
            RunAction::Return(output) => return Ok(output),
            RunAction::Fail(e) => return Err(e),
            _ => {
                event = script[next_reply].clone();
                next_reply += 1;
            }
        }
    }
}

#[test]
fn connecting_twice_authenticates_once() {
    let mut registry = SessionRegistry::new();
    let mut transport = StubTransport::accepting();
    assert_eq!(connect(&mut registry, &mut transport, "1", &jetson()), Ok("1".to_string()));
    assert_eq!(connect(&mut registry, &mut transport, "1", &jetson()), Ok("1".to_string()));
    assert_eq!(transport.authentications, 1);
    assert_eq!(transport.connects, 1);
    assert_eq!(registry.list(), vec!["1".to_string()]);
    assert_eq!(registry.lookup("1"), Ok(&1));
}

#[test]
fn unsupported_auth_type_never_reaches_the_network() {
    let mut registry = SessionRegistry::new();
    let mut transport = StubTransport::accepting();
    let mut cfg = jetson();
    cfg.auth_type = "kerberos".to_string();
    let r = connect(&mut registry, &mut transport, "1", &cfg);
    assert!(matches!(r, Err(SessionError::Config(_))));
    assert_eq!(transport.connects, 0);
    assert!(registry.list().is_empty());
}

#[test]
fn rejected_password_gives_auth_failed_and_no_session() {
    let mut registry = SessionRegistry::new();
    let mut transport = StubTransport::accepting();
    transport.auth_error = Some("[Session(-18)] Authentication failed (username/password)");
    assert_eq!(
        connect(&mut registry, &mut transport, "1", &jetson()),
        Err(SessionError::AuthFailed)
    );
    assert!(registry.list().is_empty());
    assert!(!registry.is_alive("1"));
    assert_eq!(transport.connects, 1);
}

#[test]
fn accepted_but_unauthenticated_connection_gives_auth_failed() {
    let mut registry = SessionRegistry::new();
    let mut transport = StubTransport::accepting();
    transport.authenticated = false;
    assert_eq!(
        connect(&mut registry, &mut transport, "1", &jetson()),
        Err(SessionError::AuthFailed)
    );
    assert!(!registry.is_alive("1"));
}

#[test]
fn unreachable_host_gives_unreachable() {
    let mut registry = SessionRegistry::new();
    let mut transport = StubTransport::accepting();
    transport.connect_ok = false;
    assert_eq!(
        connect(&mut registry, &mut transport, "1", &jetson()),
        Err(SessionError::Unreachable)
    );
    transport.connect_ok = true;
    transport.handshake_ok = false;
    assert_eq!(
        connect(&mut registry, &mut transport, "1", &jetson()),
        Err(SessionError::Unreachable)
    );
    assert!(registry.list().is_empty());
}

#[test]
fn two_samples_give_seventy_percent() {
    let mut cache = CpuCache::new();
    // total = 1000, idle = 700
    let first = cache.begin_sample("1", "cpu  250 20 30 650 50 0 0 0 0 0\n7772 2000\n").unwrap();
    assert_eq!(first.cpu.percent(), 0);
    // total = 1200, idle = 760
    let second = cache.begin_sample("1", "cpu  350 30 60 700 60 0 0 0 0 0\n7772 2100\n").unwrap();
    assert_eq!(second.cpu.busy, 200 - 60);
    assert_eq!(second.cpu.total, 200);
    let sample = second.finish_at(None, 1, 0);
    assert_eq!(sample.cpu_percent(), 70);
    assert_eq!(sample.cpu.busy as f64 / sample.cpu.total as f64 * 100.0, 70.0);
    assert_eq!(sample.gpu_util, None);
    assert_eq!(sample.gpu_temp_c, None);
}

#[test]
fn simulated_reboot_between_samples_gives_zero() {
    let mut cache = CpuCache::new();
    cache.begin_sample("1", "cpu 500000 0 0 400000 1000\n1 1\n").unwrap();
    let after = cache.begin_sample("1", "cpu 50 0 0 40 1\n1 1\n").unwrap();
    assert_eq!(after.cpu.total, 0);
    assert_eq!(after.cpu.busy, 0);
    assert_eq!(after.cpu.percent(), 0);
}

#[test]
fn false_returns_exit_status_one_and_shutdown_surfaces_it() {
    let output = run(
        "false",
        &[
            RunEvent::Done,
            RunEvent::Done,
            RunEvent::Output(String::new()),
            RunEvent::Output(String::new()),
            RunEvent::Done,
            RunEvent::ExitStatus(1),
        ],
    )
    .unwrap();
    assert_eq!(output.exit_status, 1);
    assert_eq!(output.stdout, "");
    assert!(matches!(
        shutdown_outcome(&output),
        Err(SessionError::RemoteCommandFailed { exit_status: 1, .. })
    ));
}

#[test]
fn run_on_unknown_session_is_not_found_before_any_step() {
    let registry: SessionRegistry<u32> = SessionRegistry::new();
    assert_eq!(registry.lookup("9"), Err(SessionError::NotFound));
}

#[test]
fn run_fails_when_the_channel_cannot_be_opened() {
    let r = run("ls", &[RunEvent::Failed("Unable to open channel".to_string())]);
    assert_eq!(r, Err(SessionError::Unreachable));
}

#[test]
fn monitor_tick_with_failing_channel_removes_the_session() {
    let mut registry = SessionRegistry::new();
    let mut transport = StubTransport::accepting();
    connect(&mut registry, &mut transport, "1", &jetson()).unwrap();
    assert_eq!(registry.monitor_wake("1"), MonitorStep::Probe);
    assert_eq!(registry.monitor_report("1", ProbeOutcome::ChannelFailed), MonitorStep::Stop);
    assert!(!registry.is_alive("1"));
    assert_eq!(registry.monitor_wake("1"), MonitorStep::Stop);
}

#[test]
fn monitor_ends_after_an_explicit_disconnect() {
    let mut registry = SessionRegistry::new();
    let mut transport = StubTransport::accepting();
    connect(&mut registry, &mut transport, "1", &jetson()).unwrap();
    registry.disconnect("1").unwrap();
    assert_eq!(registry.monitor_wake("1"), MonitorStep::Stop);
}

#[test]
fn start_twice_publishes_from_one_loop() {
    let mut controller = StreamController::new();
    let mut cache = CpuCache::new();
    let mut loops = 0;
    for _ in 0..2 {
        if controller.start("1") == StartDecision::Spawn {
            loops += 1;
        }
    }
    assert_eq!(loops, 1);
    let mut published = 0;
    let outputs = ["cpu 1 1 1 1\n8 4\n", "broken", "cpu 2 2 2 2\n8 4\n"];
    for out in outputs {
        assert_eq!(controller.poll("1"), LoopStep::Sample);
        let outcome = cache.begin_sample("1", out).map(|p| p.finish_at(None, 1, 0));
        if to_publish(outcome).is_some() {
            published += 1;
        }
    }
    assert_eq!(published, 2 * loops);
    controller.request_stop("1");
    assert_eq!(controller.poll("1"), LoopStep::Exit);
}
