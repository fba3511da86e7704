use textadventurer::streams::{StderrStats, StdinStats, StdoutStats};
use textadventurer::teardown::{exit_code, ExitReport, Teardown, TeardownAction, TeardownEvent};

fn shut_down(killed: bool, waited: Option<Option<i32>>, told: bool) -> (Vec<TeardownAction>, ExitReport) {
    let mut teardown = Teardown::begin();
    let mut actions = vec![];
    loop {
        let action = teardown.action();
        let event = match action {
            TeardownAction::Kill => TeardownEvent::Killed(killed),
            TeardownAction::Wait => TeardownEvent::Waited(waited),
            TeardownAction::SendEof => TeardownEvent::EofSent(told),
            TeardownAction::JoinStdin => TeardownEvent::StdinJoined(StdinStats { bytes_read: 1 }),
            TeardownAction::JoinStdout => TeardownEvent::StdoutJoined(StdoutStats { bytes_written: 2 }),
            TeardownAction::JoinStderr => TeardownEvent::StderrJoined(StderrStats { bytes_written: 3 }),
            TeardownAction::Report(report) => return (actions, report),
        };
        actions.push(action);
        teardown.step(event);
    }
}

#[test]
fn shutdown_is_in_order() {
    let (actions, report) = shut_down(true, Some(Some(0)), true);
    assert_eq!(
        actions,
        vec![
            TeardownAction::Kill,
            TeardownAction::Wait,
            TeardownAction::SendEof,
            TeardownAction::JoinStdin,
            TeardownAction::JoinStdout,
            TeardownAction::JoinStderr,
        ]
    );
    let expected = ExitReport { exit_code: 0, stdin_bytes: 1, stdout_bytes: 2, stderr_bytes: 3 };
    assert_eq!(report, expected);
}

#[test]
fn shutdown_goes_on_after_failures() {
    let (actions, report) = shut_down(false, None, false);
    assert_eq!(actions, shut_down(true, Some(Some(0)), true).0);
    assert_eq!(report.exit_code, 1);
}

#[test]
fn exit_codes() {
    assert_eq!(exit_code(Some(Some(0))), 0);
    assert_eq!(exit_code(Some(Some(-7))), -7);
    assert_eq!(exit_code(Some(None)), 1);
    assert_eq!(exit_code(None), 1);
}
