use orion::error::SessionError;
use orion::executor::{run_step, CommandOutput, RunAction, RunEvent, RunState};

#[test]
fn a_run_goes_through_every_step_in_order() {
    let cmd = "uname -r";
    let (s, a) = run_step(cmd, RunState::Start, RunEvent::Begin);
    assert_eq!((s.clone(), a), (RunState::Opening, RunAction::OpenChannel));
    let (s, a) = run_step(cmd, s, RunEvent::Done);
    assert_eq!((s.clone(), a), (RunState::Starting, RunAction::Exec("uname -r".to_string())));
    let (s, a) = run_step(cmd, s, RunEvent::Done);
    assert_eq!((s.clone(), a), (RunState::ReadingStdout, RunAction::ReadStdout));
    let (s, a) = run_step(cmd, s, RunEvent::Output("5.10.104-tegra\n".to_string()));
    assert_eq!(
        (s.clone(), a),
        (RunState::ReadingStderr { stdout: "5.10.104-tegra\n".to_string() }, RunAction::ReadStderr)
    );
    let (s, a) = run_step(cmd, s, RunEvent::Output("warn\n".to_string()));
    assert_eq!(
        (s.clone(), a),
        (
            RunState::Closing { stdout: "5.10.104-tegra\n".to_string(), stderr: "warn\n".to_string() },
            RunAction::WaitClose
        )
    );
    let (s, a) = run_step(cmd, s, RunEvent::Done);
    assert_eq!(
        (s.clone(), a),
        (
            RunState::ReadingStatus {
                stdout: "5.10.104-tegra\n".to_string(),
                stderr: "warn\n".to_string()
            },
            RunAction::ReadExitStatus
        )
    );
    let (s, a) = run_step(cmd, s, RunEvent::ExitStatus(0));
    assert_eq!(s, RunState::Finished);
    assert_eq!(
        a,
        RunAction::Return(CommandOutput {
            stdout: "5.10.104-tegra\n".to_string(),
            stderr: "warn\n".to_string(),
            exit_status: 0
        })
    );
}

#[test]
fn a_non_zero_exit_status_is_data() {
    let state = RunState::ReadingStatus { stdout: String::new(), stderr: "boom".to_string() };
    assert_eq!(
        run_step("false", state, RunEvent::ExitStatus(127)),
        (
            RunState::Finished,
            RunAction::Return(CommandOutput {
                stdout: String::new(),
                stderr: "boom".to_string(),
                exit_status: 127
            })
        )
    );
}

#[test]
fn a_failed_step_ends_the_run_with_the_classified_message() {
    let states = [
        RunState::Opening,
        RunState::Starting,
        RunState::ReadingStdout,
        RunState::ReadingStderr { stdout: "x".to_string() },
        RunState::Closing { stdout: "x".to_string(), stderr: "y".to_string() },
        RunState::ReadingStatus { stdout: "x".to_string(), stderr: "y".to_string() },
    ];
    for state in states {
        assert_eq!(
            run_step("ls", state.clone(), RunEvent::Failed("Operation timed out".to_string())),
            (RunState::Finished, RunAction::Fail(SessionError::Timeout))
        );
        assert_eq!(
            run_step("ls", state, RunEvent::Failed("Channel closed".to_string())),
            (
                RunState::Finished,
                RunAction::Fail(SessionError::Other("Channel closed".to_string()))
            )
        );
    }
}

#[test]
fn channel_events_out_of_order_end_the_run() {
    let expected = (
        RunState::Finished,
        RunAction::Fail(SessionError::Other("channel event out of order".to_string())),
    );
    assert_eq!(run_step("ls", RunState::Start, RunEvent::Done), expected);
    assert_eq!(run_step("ls", RunState::Opening, RunEvent::Begin), expected);
    assert_eq!(run_step("ls", RunState::ReadingStdout, RunEvent::Done), expected);
    assert_eq!(run_step("ls", RunState::Starting, RunEvent::ExitStatus(0)), expected);
    assert_eq!(run_step("ls", RunState::Finished, RunEvent::Begin), expected);
}
