//! Background telemetry streams: at most one polling loop per session,
//! started idempotently and stopped by a flag that the loop polls.

use crate::error::SessionError;
use crate::idmap::IdMap;
use crate::telemetry::TelemetrySample;
use vstd::prelude::*;

verus! {

/// Milliseconds between two samples where the caller names no interval.
pub const DEFAULT_POLL_INTERVAL_MS: u64 = 1000;

/// What a start request has to do.
#[derive(Debug, Clone, Copy, PartialEq, Eq, Structural)]
pub enum StartDecision {
    /// A stream is registered for the session: nothing to do.
    AlreadyRunning,
    /// The stream was registered: spawn its loop.
    Spawn,
}

/// What a stop request has to do.
#[derive(Debug, Clone, Copy, PartialEq, Eq, Structural)]
pub enum StopDecision {
    /// No stream is registered for the session: nothing to do.
    Nothing,
    /// The flag was cleared: wait for the loop to exit, then report it.
    Join,
}

/// What a stream's loop does next.
#[derive(Debug, Clone, Copy, PartialEq, Eq, Structural)]
pub enum LoopStep {
    /// Take one sample, publish it if there is one, sleep one interval.
    Sample,
    /// Leave the loop.
    Exit,
}

/// The streams by session: `true` while the loop shall run, `false` from
/// the stop request until the loop has exited.
pub type Streams = Map<Seq<char>, bool>;

/// Whether the loop of session `id` shall go on.
pub open spec fn shall_run(streams: Streams, id: Seq<char>) -> bool {
    streams.dom().contains(id) && streams[id]
}

/// The decision on a start request for `id`.
pub open spec fn start_decision(streams: Streams, id: Seq<char>) -> StartDecision {
    if streams.dom().contains(id) {
        StartDecision::AlreadyRunning
    } else {
        StartDecision::Spawn
    }
}

/// The streams after a start request for `id`.
pub open spec fn after_start(streams: Streams, id: Seq<char>) -> Streams {
    if streams.dom().contains(id) {
        streams
    } else {
        streams.insert(id, true)
    }
}

/// The decision on a stop request for `id`.
pub open spec fn stop_decision(streams: Streams, id: Seq<char>) -> StopDecision {
    if streams.dom().contains(id) {
        StopDecision::Join
    } else {
        StopDecision::Nothing
    }
}

/// The streams after a stop request for `id`: its flag is cleared.
pub open spec fn after_stop_request(streams: Streams, id: Seq<char>) -> Streams {
    if streams.dom().contains(id) {
        streams.insert(id, false)
    } else {
        streams
    }
}

/// The interval to sleep between two samples.
pub fn poll_interval_ms(requested: Option<u64>) -> (ms: u64)
    ensures
        ms == match requested {
            Some(v) => v,
            None => DEFAULT_POLL_INTERVAL_MS,
        },
{
    match requested {
        Some(v) => v,
        None => DEFAULT_POLL_INTERVAL_MS,
    }
}

/// What a loop publishes for the outcome of one sampling: the sample, or
/// nothing for a failure, which skips the cycle and does not end the loop.
pub fn to_publish(outcome: Result<TelemetrySample, SessionError>) -> (r: Option<TelemetrySample>)
    ensures
        r == match outcome {
            Ok(sample) => Some(sample),
            Err(_) => None::<TelemetrySample>,
        },
{
    match outcome {
        Ok(sample) => Some(sample),
        Err(_) => None,
    }
}

/// The registered streams with their flags.
pub struct StreamController {
    flags: IdMap<bool>,
}

impl View for StreamController {
    type V = Streams;

    closed spec fn view(&self) -> Streams {
        self.flags@
    }
}

impl StreamController {
    /// A controller without streams.
    pub fn new() -> (c: Self)
        ensures
            c@ == Map::<Seq<char>, bool>::empty(),
    {
        StreamController { flags: IdMap::new() }
    }

    /// A start request for session `id`: registers the stream unless one
    /// is registered.
    pub fn start(&mut self, id: &str) -> (d: StartDecision)
        ensures
            d == start_decision(old(self)@, id@),
            final(self)@ == after_start(old(self)@, id@),
    {
        if self.flags.contains_key(id) {
            StartDecision::AlreadyRunning
        } else {
            let _ = self.flags.insert(id.to_owned(), true);
            StartDecision::Spawn
        }
    }

    /// A stop request for session `id`: clears the flag of a registered
    /// stream. Without a stream it changes nothing and is no error.
    pub fn request_stop(&mut self, id: &str) -> (d: StopDecision)
        ensures
            d == stop_decision(old(self)@, id@),
            final(self)@ == after_stop_request(old(self)@, id@),
    {
        if self.flags.contains_key(id) {
            let _ = self.flags.insert(id.to_owned(), false);
            StopDecision::Join
        } else {
            StopDecision::Nothing
        }
    }

    /// The loop of session `id` was seen to exit: forgets the stream.
    pub fn finish_stop(&mut self, id: &str)
        ensures
            final(self)@ == old(self)@.remove(id@),
    {
        let _ = self.flags.remove(id);
    }

    /// The check at the head of each cycle of the loop of session `id`.
    pub fn poll(&self, id: &str) -> (step: LoopStep)
        ensures
            step == if shall_run(self@, id@) {
                LoopStep::Sample
            } else {
                LoopStep::Exit
            },
    {
        match self.flags.get(id) {
            Some(flag) => if *flag {
                LoopStep::Sample
            } else {
                LoopStep::Exit
            },
            None => LoopStep::Exit,
        }
    }

    /// Whether a stream is registered for session `id`.
    pub fn is_registered(&self, id: &str) -> (b: bool)
        ensures
            b == self@.dom().contains(id@),
    {
        self.flags.contains_key(id)
    }
}

/// One request to the controller about one session.
#[derive(Debug, Clone, Copy, PartialEq, Eq, Structural)]
pub enum StreamRequest {
    Start,
    RequestStop,
    FinishStop,
}

/// The streams after `request` for `id`.
pub open spec fn after_request(streams: Streams, id: Seq<char>, request: StreamRequest) -> Streams {
    match request {
        StreamRequest::Start => after_start(streams, id),
        StreamRequest::RequestStop => after_stop_request(streams, id),
        StreamRequest::FinishStop => streams.remove(id),
    }
}

/// The streams after the requests of `requests` for `id`, in order,
/// starting without streams.
pub open spec fn after_requests(id: Seq<char>, requests: Seq<StreamRequest>) -> Streams
    decreases requests.len(),
{
    if requests.len() == 0 {
        Map::empty()
    } else {
        after_request(after_requests(id, requests.drop_last()), id, requests.last())
    }
}

/// The number of loops of `id` that were spawned and whose exit was not
/// yet reported, after the requests of `requests`: a start that spawns adds
/// one, the report of an exit of a registered stream takes one away.
pub open spec fn live_loops(id: Seq<char>, requests: Seq<StreamRequest>) -> int
    decreases requests.len(),
{
    if requests.len() == 0 {
        0
    } else {
        let before = after_requests(id, requests.drop_last());
        let sofar = live_loops(id, requests.drop_last());
        match requests.last() {
            StreamRequest::Start => if start_decision(before, id) == StartDecision::Spawn {
                sofar + 1
            } else {
                sofar
            },
            StreamRequest::RequestStop => sofar,
            StreamRequest::FinishStop => if before.dom().contains(id) {
                sofar - 1
            } else {
                sofar
            },
        }
    }
}

/// Whatever is asked in whatever order, a session has one loop while its
/// stream is registered and none otherwise: never two.
pub proof fn lemma_one_loop_per_session(id: Seq<char>, requests: Seq<StreamRequest>)
    ensures
        live_loops(id, requests) == if after_requests(id, requests).dom().contains(id) {
            1int
        } else {
            0int
        },
    decreases requests.len(),
{
    if requests.len() > 0 {
        lemma_one_loop_per_session(id, requests.drop_last());
    }
}

/// Starting twice in a row starts one loop: the first request on a free
/// session spawns, the second finds the stream registered, and leaves the
/// streams as the first left them.
pub proof fn lemma_start_is_idempotent(streams: Streams, id: Seq<char>)
    ensures
        start_decision(after_start(streams, id), id) == StartDecision::AlreadyRunning,
        after_start(after_start(streams, id), id) == after_start(streams, id),
        !streams.dom().contains(id) ==> start_decision(streams, id) == StartDecision::Spawn
            && shall_run(after_start(streams, id), id),
{
}

/// Stopping a session without a stream changes nothing and asks for
/// nothing.
pub proof fn lemma_stop_without_stream(streams: Streams, id: Seq<char>)
    requires
        !streams.dom().contains(id),
    ensures
        stop_decision(streams, id) == StopDecision::Nothing,
        after_stop_request(streams, id) == streams,
{
}

/// After a stop request the loop leaves at its next check, and until its
/// exit is reported no second loop is spawned for the session.
pub proof fn lemma_stop_is_observed(streams: Streams, id: Seq<char>)
    ensures
        !shall_run(after_stop_request(streams, id), id),
        streams.dom().contains(id) ==> start_decision(after_stop_request(streams, id), id)
            == StartDecision::AlreadyRunning,
        !after_stop_request(streams, id).remove(id).dom().contains(id),
{
}

} // verus!
