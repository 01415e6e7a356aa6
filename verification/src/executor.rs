//! Running one command on a session: open a channel, start the command,
//! drain both output streams, wait for the channel to close, read the exit
//! status. The embedding program performs each step under the session's
//! lock and reports how it went.

use crate::error::{classify, classify_error, ErrorModel, SessionError};
use crate::text::lowercase;
use vstd::prelude::*;
use vstd::string::*;

verus! {

/// What a command left behind. A non-zero exit status is data, not an
/// error: the caller decides what it means.
#[derive(Debug, Clone, PartialEq, Eq)]
pub struct CommandOutput {
    pub stdout: String,
    pub stderr: String,
    pub exit_status: i32,
}

/// The mathematical value of a [`CommandOutput`].
pub struct CommandOutputModel {
    pub stdout: Seq<char>,
    pub stderr: Seq<char>,
    pub exit_status: i32,
}

impl View for CommandOutput {
    type V = CommandOutputModel;

    open spec fn view(&self) -> CommandOutputModel {
        CommandOutputModel {
            stdout: self.stdout@,
            stderr: self.stderr@,
            exit_status: self.exit_status,
        }
    }
}

/// How far the execution of a command has come, with what was read so far.
#[derive(Debug, Clone, PartialEq, Eq)]
pub enum RunState {
    Start,
    Opening,
    Starting,
    ReadingStdout,
    ReadingStderr { stdout: String },
    Closing { stdout: String, stderr: String },
    ReadingStatus { stdout: String, stderr: String },
    Finished,
}

/// The mathematical value of a [`RunState`].
pub enum RunStateModel {
    Start,
    Opening,
    Starting,
    ReadingStdout,
    ReadingStderr { stdout: Seq<char> },
    Closing { stdout: Seq<char>, stderr: Seq<char> },
    ReadingStatus { stdout: Seq<char>, stderr: Seq<char> },
    Finished,
}

impl View for RunState {
    type V = RunStateModel;

    open spec fn view(&self) -> RunStateModel {
        match self {
            RunState::Start => RunStateModel::Start,
            RunState::Opening => RunStateModel::Opening,
            RunState::Starting => RunStateModel::Starting,
            RunState::ReadingStdout => RunStateModel::ReadingStdout,
            RunState::ReadingStderr { stdout } => RunStateModel::ReadingStderr { stdout: stdout@ },
            RunState::Closing { stdout, stderr } => RunStateModel::Closing {
                stdout: stdout@,
                stderr: stderr@,
            },
            RunState::ReadingStatus { stdout, stderr } => RunStateModel::ReadingStatus {
                stdout: stdout@,
                stderr: stderr@,
            },
            RunState::Finished => RunStateModel::Finished,
        }
    }
}

/// How the step that was asked for went.
#[derive(Debug, Clone, PartialEq, Eq)]
pub enum RunEvent {
    /// The caller asks to run the command.
    Begin,
    /// The step completed.
    Done,
    /// The stream was drained and held this text.
    Output(String),
    /// The command's exit status.
    ExitStatus(i32),
    /// The step failed with the transport's message.
    Failed(String),
}

/// The mathematical value of a [`RunEvent`].
pub enum RunEventModel {
    Begin,
    Done,
    Output(Seq<char>),
    ExitStatus(i32),
    Failed(Seq<char>),
}

impl View for RunEvent {
    type V = RunEventModel;

    open spec fn view(&self) -> RunEventModel {
        match self {
            RunEvent::Begin => RunEventModel::Begin,
            RunEvent::Done => RunEventModel::Done,
            RunEvent::Output(text) => RunEventModel::Output(text@),
            RunEvent::ExitStatus(code) => RunEventModel::ExitStatus(*code),
            RunEvent::Failed(msg) => RunEventModel::Failed(msg@),
        }
    }
}

/// What the embedding program does next.
#[derive(Debug, Clone, PartialEq, Eq)]
pub enum RunAction {
    /// Open a new channel on the session.
    OpenChannel,
    /// Start this command on the channel.
    Exec(String),
    /// Read standard output to its end.
    ReadStdout,
    /// Read standard error to its end.
    ReadStderr,
    /// Wait until the channel is closed.
    WaitClose,
    /// Read the command's exit status.
    ReadExitStatus,
    /// The command has run: hand this out.
    Return(CommandOutput),
    /// Give up with this error.
    Fail(SessionError),
}

/// The mathematical value of a [`RunAction`].
pub enum RunActionModel {
    OpenChannel,
    Exec(Seq<char>),
    ReadStdout,
    ReadStderr,
    WaitClose,
    ReadExitStatus,
    Return(CommandOutputModel),
    Fail(ErrorModel),
}

impl View for RunAction {
    type V = RunActionModel;

    open spec fn view(&self) -> RunActionModel {
        match self {
            RunAction::OpenChannel => RunActionModel::OpenChannel,
            RunAction::Exec(command) => RunActionModel::Exec(command@),
            RunAction::ReadStdout => RunActionModel::ReadStdout,
            RunAction::ReadStderr => RunActionModel::ReadStderr,
            RunAction::WaitClose => RunActionModel::WaitClose,
            RunAction::ReadExitStatus => RunActionModel::ReadExitStatus,
            RunAction::Return(output) => RunActionModel::Return(output@),
            RunAction::Fail(e) => RunActionModel::Fail(e@),
        }
    }
}

/// The text of the error for an event that the state does not expect.
pub open spec fn out_of_order_text() -> Seq<char> {
    "channel event out of order"@
}

/// The error that ends a run on an event which does not belong to the
/// state: the classified message of a failed step, else a complaint about
/// the order.
pub open spec fn run_failure(event: RunEventModel) -> ErrorModel {
    match event {
        RunEventModel::Failed(msg) => classify(lowercase(msg), msg),
        _ => ErrorModel::Other(out_of_order_text()),
    }
}

/// The step function of a command execution: the state and action that
/// follow `event` in `state`, for the command `command`.
///
/// The steps come in a fixed order and each must complete: a step that
/// fails ends the run with its classified message. The exit status is
/// handed out as it is, zero or not.
pub open spec fn run_transition(command: Seq<char>, state: RunStateModel, event: RunEventModel) -> (
    RunStateModel,
    RunActionModel,
) {
    match (state, event) {
        (RunStateModel::Start, RunEventModel::Begin) => (
            RunStateModel::Opening,
            RunActionModel::OpenChannel,
        ),
        (RunStateModel::Opening, RunEventModel::Done) => (
            RunStateModel::Starting,
            RunActionModel::Exec(command),
        ),
        (RunStateModel::Starting, RunEventModel::Done) => (
            RunStateModel::ReadingStdout,
            RunActionModel::ReadStdout,
        ),
        (RunStateModel::ReadingStdout, RunEventModel::Output(stdout)) => (
            RunStateModel::ReadingStderr { stdout },
            RunActionModel::ReadStderr,
        ),
        (RunStateModel::ReadingStderr { stdout }, RunEventModel::Output(stderr)) => (
            RunStateModel::Closing { stdout, stderr },
            RunActionModel::WaitClose,
        ),
        (RunStateModel::Closing { stdout, stderr }, RunEventModel::Done) => (
            RunStateModel::ReadingStatus { stdout, stderr },
            RunActionModel::ReadExitStatus,
        ),
        (RunStateModel::ReadingStatus { stdout, stderr }, RunEventModel::ExitStatus(code)) => (
            RunStateModel::Finished,
            RunActionModel::Return(CommandOutputModel { stdout, stderr, exit_status: code }),
        ),
        _ => (RunStateModel::Finished, RunActionModel::Fail(run_failure(event))),
    }
}

fn fail_on(event: RunEvent) -> (r: (RunState, RunAction))
    ensures
        r.0@ == RunStateModel::Finished,
        r.1@ == RunActionModel::Fail(run_failure(event@)),
{
    let e = match event {
        RunEvent::Failed(msg) => classify_error(msg.as_str()),
        _ => SessionError::Other("channel event out of order".to_owned()),
    };
    (RunState::Finished, RunAction::Fail(e))
}

/// One step of a command execution: takes the state and how the last
/// action went, and gives the next state and action.
pub fn run_step(command: &str, state: RunState, event: RunEvent) -> (r: (RunState, RunAction))
    ensures
        (r.0@, r.1@) == run_transition(command@, state@, event@),
{
    match state {
        RunState::Start => match event {
            RunEvent::Begin => (RunState::Opening, RunAction::OpenChannel),
            other => fail_on(other),
        },
        RunState::Opening => match event {
            RunEvent::Done => (RunState::Starting, RunAction::Exec(command.to_owned())),
            other => fail_on(other),
        },
        RunState::Starting => match event {
            RunEvent::Done => (RunState::ReadingStdout, RunAction::ReadStdout),
            other => fail_on(other),
        },
        RunState::ReadingStdout => match event {
            RunEvent::Output(stdout) => (RunState::ReadingStderr { stdout }, RunAction::ReadStderr),
            other => fail_on(other),
        },
        RunState::ReadingStderr { stdout } => match event {
            RunEvent::Output(stderr) => (
                RunState::Closing { stdout, stderr },
                RunAction::WaitClose,
            ),
            other => fail_on(other),
        },
        RunState::Closing { stdout, stderr } => match event {
            RunEvent::Done => (
                RunState::ReadingStatus { stdout, stderr },
                RunAction::ReadExitStatus,
            ),
            other => fail_on(other),
        },
        RunState::ReadingStatus { stdout, stderr } => match event {
            RunEvent::ExitStatus(code) => (
                RunState::Finished,
                RunAction::Return(CommandOutput { stdout, stderr, exit_status: code }),
            ),
            other => fail_on(other),
        },
        RunState::Finished => fail_on(event),
    }
}

/// A run hands out a result only from the last step, with the two texts as
/// they were read and the exit status as it was reported, zero or not.
pub proof fn lemma_result_needs_every_step(
    command: Seq<char>,
    state: RunStateModel,
    event: RunEventModel,
)
    requires
        run_transition(command, state, event).1 is Return,
    ensures
        state matches RunStateModel::ReadingStatus { stdout, stderr } && event
            matches RunEventModel::ExitStatus(code) && run_transition(command, state, event).1
            == RunActionModel::Return(CommandOutputModel { stdout, stderr, exit_status: code }),
{
}

/// Where the execution of `command` stands after the events of `events`,
/// reported in order from the start, and the last action it asked for.
pub open spec fn run_history(command: Seq<char>, events: Seq<RunEventModel>) -> (
    RunStateModel,
    Option<RunActionModel>,
)
    decreases events.len(),
{
    if events.len() == 0 {
        (RunStateModel::Start, None)
    } else {
        let before = run_history(command, events.drop_last());
        let step = run_transition(command, before.0, events.last());
        (step.0, Some(step.1))
    }
}

/// The state before the exit status is read is reached by one history
/// only: channel opened, command started, both streams drained in this
/// order, channel closed.
pub proof fn lemma_run_order(command: Seq<char>, events: Seq<RunEventModel>)
    ensures
        run_history(command, events).0 is Start ==> events.len() == 0,
        run_history(command, events).0 is Opening ==> events == seq![RunEventModel::Begin],
        run_history(command, events).0 is Starting ==> events == seq![
            RunEventModel::Begin,
            RunEventModel::Done,
        ],
        run_history(command, events).0 is ReadingStdout ==> events == seq![
            RunEventModel::Begin,
            RunEventModel::Done,
            RunEventModel::Done,
        ],
        run_history(command, events).0 matches RunStateModel::ReadingStderr { stdout } ==> events
            == seq![
            RunEventModel::Begin,
            RunEventModel::Done,
            RunEventModel::Done,
            RunEventModel::Output(stdout),
        ],
        run_history(command, events).0 matches RunStateModel::Closing { stdout, stderr }
            ==> events == seq![
            RunEventModel::Begin,
            RunEventModel::Done,
            RunEventModel::Done,
            RunEventModel::Output(stdout),
            RunEventModel::Output(stderr),
        ],
        run_history(command, events).0 matches RunStateModel::ReadingStatus { stdout, stderr }
            ==> events == seq![
            RunEventModel::Begin,
            RunEventModel::Done,
            RunEventModel::Done,
            RunEventModel::Output(stdout),
            RunEventModel::Output(stderr),
            RunEventModel::Done,
        ],
    decreases events.len(),
{
    if events.len() > 0 {
        let front = events.drop_last();
        lemma_run_order(command, front);
        assert(events =~= front.push(events.last()));
        match run_history(command, events).0 {
            RunStateModel::Opening => {
                assert(events =~= seq![RunEventModel::Begin]);
            },
            RunStateModel::Starting => {
                assert(events =~= seq![RunEventModel::Begin, RunEventModel::Done]);
            },
            RunStateModel::ReadingStdout => {
                assert(events =~= seq![
                    RunEventModel::Begin,
                    RunEventModel::Done,
                    RunEventModel::Done,
                ]);
            },
            RunStateModel::ReadingStderr { stdout } => {
                assert(events =~= seq![
                    RunEventModel::Begin,
                    RunEventModel::Done,
                    RunEventModel::Done,
                    RunEventModel::Output(stdout),
                ]);
            },
            RunStateModel::Closing { stdout, stderr } => {
                assert(events =~= seq![
                    RunEventModel::Begin,
                    RunEventModel::Done,
                    RunEventModel::Done,
                    RunEventModel::Output(stdout),
                    RunEventModel::Output(stderr),
                ]);
            },
            RunStateModel::ReadingStatus { stdout, stderr } => {
                assert(events =~= seq![
                    RunEventModel::Begin,
                    RunEventModel::Done,
                    RunEventModel::Done,
                    RunEventModel::Output(stdout),
                    RunEventModel::Output(stderr),
                    RunEventModel::Done,
                ]);
            },
            _ => {},
        }
    }
}

/// A command's output is handed out on one history only: every step
/// completed in order, and the output holds what the steps reported.
pub proof fn lemma_output_needs_every_step(
    command: Seq<char>,
    events: Seq<RunEventModel>,
    output: CommandOutputModel,
)
    requires
        run_history(command, events).1 == Some(RunActionModel::Return(output)),
    ensures
        events == seq![
            RunEventModel::Begin,
            RunEventModel::Done,
            RunEventModel::Done,
            RunEventModel::Output(output.stdout),
            RunEventModel::Output(output.stderr),
            RunEventModel::Done,
            RunEventModel::ExitStatus(output.exit_status),
        ],
{
    let front = events.drop_last();
    lemma_run_order(command, front);
    lemma_result_needs_every_step(command, run_history(command, front).0, events.last());
    assert(events =~= front.push(events.last()));
}

/// A step that fails ends the run, in whatever state, with the classified
/// message.
pub proof fn lemma_failed_step_ends_run(command: Seq<char>, state: RunStateModel, msg: Seq<char>)
    ensures
        run_transition(command, state, RunEventModel::Failed(msg)) == (
            RunStateModel::Finished,
            RunActionModel::Fail(classify(lowercase(msg), msg)),
        ),
{
}

} // verus!
