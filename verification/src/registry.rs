//! The registry of live sessions: at most one handle per identifier,
//! entered on a successful connect and removed by an explicit disconnect or
//! by the session's monitor when the session is found dead.

use crate::error::{ErrorModel, SessionError};
use crate::idmap::IdMap;
use crate::text::{decimal_string, decimal_text};
use vstd::prelude::*;
use vstd::string::*;

verus! {

/// What a connect request has to do.
#[derive(Debug, Clone, Copy, PartialEq, Eq, Structural)]
pub enum ConnectDecision {
    /// The identifier is registered: answer with it, do nothing else.
    AlreadyConnected,
    /// The identifier is free: authenticate, then report the outcome.
    Authenticate,
}

/// What a session's monitor does next.
#[derive(Debug, Clone, Copy, PartialEq, Eq, Structural)]
pub enum MonitorStep {
    /// Run the trivial command on the session and report how it went.
    Probe,
    /// Sleep one interval, then wake again.
    Sleep,
    /// End the monitor.
    Stop,
}

/// How the monitor's trivial command went.
#[derive(Debug, Clone, Copy, PartialEq, Eq, Structural)]
pub enum ProbeOutcome {
    /// The channel opened and the command was started, whatever its exit
    /// status.
    Ran,
    /// The channel could not be opened.
    ChannelFailed,
    /// The channel opened, but the command could not be started.
    ExecFailed,
}

/// Seconds between two liveness probes of one session.
pub const MONITOR_INTERVAL_SECS: u64 = 5;

/// The trivial command that a liveness probe runs.
pub const MONITOR_COMMAND: &'static str = "true";

/// The session identifier of the device `device_id`: the number in base
/// ten.
pub fn session_id_for(device_id: i64) -> (id: String)
    ensures
        id@ == decimal_text(device_id as int),
{
    decimal_string(device_id)
}

/// Whether a connect request for `id` finds the identifier registered.
pub open spec fn connect_decision<H>(
    sessions: Map<Seq<char>, H>,
    id: Seq<char>,
) -> ConnectDecision {
    if sessions.dom().contains(id) {
        ConnectDecision::AlreadyConnected
    } else {
        ConnectDecision::Authenticate
    }
}

/// The registry after an authentication for `id` ended with `outcome`: a
/// new handle is entered unless the identifier is taken; a failure changes
/// nothing.
pub open spec fn after_connect<H>(
    sessions: Map<Seq<char>, H>,
    id: Seq<char>,
    outcome: Result<H, SessionError>,
) -> Map<Seq<char>, H> {
    match outcome {
        Ok(handle) => if sessions.dom().contains(id) {
            sessions
        } else {
            sessions.insert(id, handle)
        },
        Err(_) => sessions,
    }
}

/// Whether a probe shows the session alive: the command ran.
pub open spec fn probe_alive(outcome: ProbeOutcome) -> bool {
    outcome == ProbeOutcome::Ran
}

/// The registry after the monitor of `id` learned `outcome`.
pub open spec fn after_probe<H>(
    sessions: Map<Seq<char>, H>,
    id: Seq<char>,
    outcome: ProbeOutcome,
) -> Map<Seq<char>, H> {
    if probe_alive(outcome) {
        sessions
    } else {
        sessions.remove(id)
    }
}

/// The live sessions, by identifier.
pub struct SessionRegistry<H> {
    sessions: IdMap<H>,
}

impl<H> View for SessionRegistry<H> {
    type V = Map<Seq<char>, H>;

    closed spec fn view(&self) -> Map<Seq<char>, H> {
        self.sessions@
    }
}

impl<H> SessionRegistry<H> {
    /// A registry without sessions.
    pub fn new() -> (r: Self)
        ensures
            r@ == Map::<Seq<char>, H>::empty(),
    {
        SessionRegistry { sessions: IdMap::new() }
    }

    /// Whether `id` is registered. Nothing is asked of the network.
    pub fn is_alive(&self, id: &str) -> (b: bool)
        ensures
            b == self@.dom().contains(id@),
    {
        self.sessions.contains_key(id)
    }

    /// The registered identifiers, each once.
    pub fn list(&self) -> (out: Vec<String>)
        ensures
            forall|k: Seq<char>|
                self@.dom().contains(k) <==> exists|i: int|
                    0 <= i < out.len() && (#[trigger] out[i])@ == k,
            forall|i: int, j: int| 0 <= i < j < out.len() ==> out[i]@ != out[j]@,
    {
        self.sessions.keys()
    }

    /// The handle registered under `id`, for an operation about to use the
    /// session.
    pub fn lookup(&self, id: &str) -> (r: Result<&H, SessionError>)
        ensures
            match r {
                Ok(handle) => self@.dom().contains(id@) && *handle == self@[id@],
                Err(e) => !self@.dom().contains(id@) && e@ == ErrorModel::NotFound,
            },
    {
        match self.sessions.get(id) {
            Some(handle) => Ok(handle),
            None => Err(SessionError::NotFound),
        }
    }

    /// Decides what a connect request for `id` has to do.
    pub fn begin_connect(&self, id: &str) -> (d: ConnectDecision)
        ensures
            d == connect_decision(self@, id@),
    {
        if self.sessions.contains_key(id) {
            ConnectDecision::AlreadyConnected
        } else {
            ConnectDecision::Authenticate
        }
    }

    /// Ends a connect request for `id` with the outcome of the
    /// authentication: success registers the handle and answers with the
    /// identifier, failure is handed on and registers nothing. Where the
    /// identifier was taken in the meantime, the registered handle stays
    /// and the new one is dropped.
    pub fn complete_connect(&mut self, id: String, outcome: Result<H, SessionError>) -> (r: Result<
        String,
        SessionError,
    >)
        ensures
            final(self)@ == after_connect(old(self)@, id@, outcome),
            match r {
                Ok(answer) => outcome is Ok && answer@ == id@,
                Err(e) => outcome == Err::<H, SessionError>(e),
            },
    {
        match outcome {
            Ok(handle) => {
                if !self.sessions.contains_key(id.as_str()) {
                    let answer = id.clone();
                    self.sessions.insert(id, handle);
                    Ok(answer)
                } else {
                    Ok(id)
                }
            },
            Err(e) => Err(e),
        }
    }

    /// Removes the session `id` and hands its handle back for teardown.
    pub fn disconnect(&mut self, id: &str) -> (r: Result<H, SessionError>)
        ensures
            final(self)@ == old(self)@.remove(id@),
            match r {
                Ok(handle) => old(self)@.dom().contains(id@) && handle == old(self)@[id@],
                Err(e) => !old(self)@.dom().contains(id@) && e@ == ErrorModel::NotFound,
            },
    {
        match self.sessions.remove(id) {
            Some(handle) => Ok(handle),
            None => Err(SessionError::NotFound),
        }
    }

    /// The monitor of `id` woke from its sleep: it probes a registered
    /// session and ends where the session is gone.
    pub fn monitor_wake(&self, id: &str) -> (step: MonitorStep)
        ensures
            step == if self@.dom().contains(id@) {
                MonitorStep::Probe
            } else {
                MonitorStep::Stop
            },
    {
        if self.sessions.contains_key(id) {
            MonitorStep::Probe
        } else {
            MonitorStep::Stop
        }
    }

    /// The monitor of `id` reports its probe: a dead session is removed and
    /// the monitor ends; a live one is kept and the monitor sleeps.
    pub fn monitor_report(&mut self, id: &str, outcome: ProbeOutcome) -> (step: MonitorStep)
        ensures
            final(self)@ == after_probe(old(self)@, id@, outcome),
            step == if probe_alive(outcome) {
                MonitorStep::Sleep
            } else {
                MonitorStep::Stop
            },
    {
        match outcome {
            ProbeOutcome::Ran => MonitorStep::Sleep,
            _ => {
                let _ = self.sessions.remove(id);
                MonitorStep::Stop
            },
        }
    }
}

/// Connecting twice under one identifier: after a connect that succeeded, a
/// second request finds the identifier registered, so it authenticates
/// nothing; and whatever outcome is reported for it, the registry stays as
/// the first connect left it.
pub proof fn lemma_connect_is_idempotent<H>(
    sessions: Map<Seq<char>, H>,
    id: Seq<char>,
    first: H,
    second: Result<H, SessionError>,
)
    ensures
        connect_decision(after_connect(sessions, id, Ok(first)), id)
            == ConnectDecision::AlreadyConnected,
        after_connect(after_connect(sessions, id, Ok(first)), id, second) == after_connect(
            sessions,
            id,
            Ok(first),
        ),
{
}

/// A session leaves the registry on two ways only, a disconnect and a probe
/// that finds it dead: no connect, however it ends, and no probe that finds
/// a session alive removes any session.
pub proof fn lemma_sessions_persist<H>(
    sessions: Map<Seq<char>, H>,
    id: Seq<char>,
    outcome: Result<H, SessionError>,
    probe: ProbeOutcome,
    other: Seq<char>,
)
    requires
        sessions.dom().contains(other),
    ensures
        after_connect(sessions, id, outcome).dom().contains(other),
        after_connect(sessions, id, outcome)[other] == sessions[other],
        probe_alive(probe) ==> after_probe(sessions, id, probe) == sessions,
{
}

/// A session that its monitor found dead is no longer registered, and no
/// other session is touched.
pub proof fn lemma_dead_session_is_evicted<H>(
    sessions: Map<Seq<char>, H>,
    id: Seq<char>,
    outcome: ProbeOutcome,
)
    requires
        !probe_alive(outcome),
    ensures
        !after_probe(sessions, id, outcome).dom().contains(id),
        forall|other: Seq<char>|
            other != id ==> (after_probe(sessions, id, outcome).dom().contains(other)
                <==> sessions.dom().contains(other)),
{
}

} // verus!
