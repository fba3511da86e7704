//! Shutting down a game's process and the threads on its pipes, in the order in
//! which each can end, and the report on the game that results.
use crate::streams::{StderrStats, StdinStats, StdoutStats};
use vstd::prelude::*;

verus! {

/// What is known of a game that has ended.
#[derive(Clone, Copy, Debug, PartialEq, Eq, Structural)]
pub struct ExitReport {
    pub exit_code: i32,
    pub stdin_bytes: usize,
    pub stdout_bytes: usize,
    pub stderr_bytes: usize,
}

/// What the caller is to do next.
#[derive(Clone, Copy, Debug, PartialEq, Eq, Structural)]
pub enum TeardownAction {
    /// Kill the process.
    Kill,
    /// Wait for the process to exit.
    Wait,
    /// Tell the standard input writer that its input is at an end. It may be
    /// waiting for more.
    SendEof,
    /// Wait for the standard input writer.
    JoinStdin,
    /// Wait for the standard output reader. Its reads end with the process.
    JoinStdout,
    /// Wait for the standard error reader. Its reads end with the process.
    JoinStderr,
    /// Nothing: this is the report.
    Report(ExitReport),
}

/// What the caller did.
#[derive(Clone, Copy, Debug, PartialEq, Eq, Structural)]
pub enum TeardownEvent {
    /// Whether the process could be killed.
    Killed(bool),
    /// The exit code that the process had, if it had one, if it could be waited
    /// for.
    Waited(Option<Option<i32>>),
    /// Whether the writer was still there to be told.
    EofSent(bool),
    StdinJoined(StdinStats),
    StdoutJoined(StdoutStats),
    StderrJoined(StderrStats),
}

/// How far a shutdown is, and what was learnt on the way.
#[derive(Clone, Copy, Debug, PartialEq, Eq, Structural)]
pub enum Teardown {
    Killing,
    Waiting,
    SendingEof { exit_code: i32 },
    JoiningStdin { exit_code: i32 },
    JoiningStdout { exit_code: i32, stdin_bytes: usize },
    JoiningStderr { exit_code: i32, stdin_bytes: usize, stdout_bytes: usize },
    Done(ExitReport),
}

/// The exit code to report. A process that a signal ended, and one that cannot be
/// waited for, count as having failed.
pub open spec fn exit_code_of(waited: Option<Option<i32>>) -> i32 {
    match waited {
        Some(Some(code)) => code,
        _ => 1,
    }
}

/// The exit code to report, given what waiting for the process returned.
pub fn exit_code(waited: Option<Option<i32>>) -> (code: i32)
    ensures
        code == exit_code_of(waited),
        match waited {
            Some(Some(reported)) => code == reported,
            Some(None) => code == 1,
            None => code == 1,
        },
{
    match waited {
        Some(Some(code)) => code,
        _ => 1,
    }
}

/// Whether `event` is that the action of `teardown` was done.
pub open spec fn completes(teardown: Teardown, event: TeardownEvent) -> bool {
    match teardown {
        Teardown::Killing => event is Killed,
        Teardown::Waiting => event is Waited,
        Teardown::SendingEof { .. } => event is EofSent,
        Teardown::JoiningStdin { .. } => event is StdinJoined,
        Teardown::JoiningStdout { .. } => event is StdoutJoined,
        Teardown::JoiningStderr { .. } => event is StderrJoined,
        Teardown::Done(_) => false,
    }
}

/// What is to be done in each state of a shutdown.
pub open spec fn teardown_action(teardown: Teardown) -> TeardownAction {
    match teardown {
        Teardown::Killing => TeardownAction::Kill,
        Teardown::Waiting => TeardownAction::Wait,
        Teardown::SendingEof { .. } => TeardownAction::SendEof,
        Teardown::JoiningStdin { .. } => TeardownAction::JoinStdin,
        Teardown::JoiningStdout { .. } => TeardownAction::JoinStdout,
        Teardown::JoiningStderr { .. } => TeardownAction::JoinStderr,
        Teardown::Done(report) => TeardownAction::Report(report),
    }
}

/// The state of a shutdown after an action was done.
pub open spec fn teardown_step(teardown: Teardown, event: TeardownEvent) -> Teardown {
    match (teardown, event) {
        (Teardown::Killing, TeardownEvent::Killed(_)) => Teardown::Waiting,
        (Teardown::Waiting, TeardownEvent::Waited(waited)) => Teardown::SendingEof {
            exit_code: exit_code_of(waited),
        },
        (Teardown::SendingEof { exit_code }, TeardownEvent::EofSent(_)) => Teardown::JoiningStdin {
            exit_code,
        },
        (
            Teardown::JoiningStdin { exit_code },
            TeardownEvent::StdinJoined(stats),
        ) => Teardown::JoiningStdout { exit_code, stdin_bytes: stats.bytes_read },
        (
            Teardown::JoiningStdout { exit_code, stdin_bytes },
            TeardownEvent::StdoutJoined(stats),
        ) => Teardown::JoiningStderr {
            exit_code,
            stdin_bytes,
            stdout_bytes: stats.bytes_written,
        },
        (
            Teardown::JoiningStderr { exit_code, stdin_bytes, stdout_bytes },
            TeardownEvent::StderrJoined(stats),
        ) => Teardown::Done(
            ExitReport {
                exit_code,
                stdin_bytes,
                stdout_bytes,
                stderr_bytes: stats.bytes_written,
            },
        ),
        _ => teardown,
    }
}

impl Teardown {
    /// A shutdown that is yet to begin.
    pub fn begin() -> (teardown: Teardown)
        ensures
            teardown == Teardown::Killing,
    {
        Teardown::Killing
    }

    /// What is to be done next.
    pub fn action(&self) -> (action: TeardownAction)
        ensures
            action == teardown_action(*self),
    {
        match *self {
            Teardown::Killing => TeardownAction::Kill,
            Teardown::Waiting => TeardownAction::Wait,
            Teardown::SendingEof { .. } => TeardownAction::SendEof,
            Teardown::JoiningStdin { .. } => TeardownAction::JoinStdin,
            Teardown::JoiningStdout { .. } => TeardownAction::JoinStdout,
            Teardown::JoiningStderr { .. } => TeardownAction::JoinStderr,
            Teardown::Done(report) => TeardownAction::Report(report),
        }
    }

    /// Takes in that the action was done. Where killing, waiting or telling the
    /// writer failed, the shutdown goes on.
    pub fn step(&mut self, event: TeardownEvent)
        requires
            completes(*old(self), event),
        ensures
            *final(self) == teardown_step(*old(self), event),
    {
        let next = match (*self, event) {
            (Teardown::Killing, TeardownEvent::Killed(_)) => Teardown::Waiting,
            (Teardown::Waiting, TeardownEvent::Waited(waited)) => Teardown::SendingEof {
                exit_code: exit_code(waited),
            },
            (
                Teardown::SendingEof { exit_code },
                TeardownEvent::EofSent(_),
            ) => Teardown::JoiningStdin { exit_code },
            (
                Teardown::JoiningStdin { exit_code },
                TeardownEvent::StdinJoined(stats),
            ) => Teardown::JoiningStdout { exit_code, stdin_bytes: stats.bytes_read },
            (
                Teardown::JoiningStdout { exit_code, stdin_bytes },
                TeardownEvent::StdoutJoined(stats),
            ) => Teardown::JoiningStderr {
                exit_code,
                stdin_bytes,
                stdout_bytes: stats.bytes_written,
            },
            (
                Teardown::JoiningStderr { exit_code, stdin_bytes, stdout_bytes },
                TeardownEvent::StderrJoined(stats),
            ) => Teardown::Done(
                ExitReport {
                    exit_code,
                    stdin_bytes,
                    stdout_bytes,
                    stderr_bytes: stats.bytes_written,
                },
            ),
            (teardown, _) => teardown,
        };
        *self = next;
    }
}

/// The state of a shutdown after these events.
pub open spec fn teardown_after(events: Seq<TeardownEvent>) -> Teardown
    decreases events.len(),
{
    if events.len() == 0 {
        Teardown::Killing
    } else {
        teardown_step(teardown_after(events.drop_last()), events.last())
    }
}

/// Whether each event is that the action was done that was due.
pub open spec fn in_turn(events: Seq<TeardownEvent>) -> bool {
    forall|i: int|
        0 <= i < events.len() ==> completes(
            teardown_after(#[trigger] events.take(i)),
            events[i],
        )
}

/// The actions that were done, in order.
pub open spec fn actions_done(events: Seq<TeardownEvent>) -> Seq<TeardownAction> {
    Seq::new(events.len(), |i: int| teardown_action(teardown_after(events.take(i))))
}

/// The order of a shutdown.
pub open spec fn teardown_order() -> Seq<TeardownAction> {
    seq![
        TeardownAction::Kill,
        TeardownAction::Wait,
        TeardownAction::SendEof,
        TeardownAction::JoinStdin,
        TeardownAction::JoinStdout,
        TeardownAction::JoinStderr,
    ]
}

/// A shutdown takes its steps in one order, whatever fails on the way. So the
/// process is gone before its readers are waited for, and the writer has been told
/// that its input is at an end before it is waited for: no wait is for something
/// that cannot end. After the last step there is a report, with the exit code and
/// the counts that came in.
pub proof fn law_shutdown_is_in_order(events: Seq<TeardownEvent>)
    requires
        in_turn(events),
    ensures
        events.len() <= 6,
        actions_done(events) == teardown_order().take(events.len() as int),
        actions_done(events) == seq![
            TeardownAction::Kill,
            TeardownAction::Wait,
            TeardownAction::SendEof,
            TeardownAction::JoinStdin,
            TeardownAction::JoinStdout,
            TeardownAction::JoinStderr,
        ].take(events.len() as int),
        events.len() == 6 ==> {
            &&& events[1] is Waited
            &&& events[3] is StdinJoined
            &&& events[4] is StdoutJoined
            &&& events[5] is StderrJoined
            &&& teardown_action(teardown_after(events)) == TeardownAction::Report(
                ExitReport {
                    exit_code: exit_code_of(events[1]->Waited_0),
                    stdin_bytes: events[3]->StdinJoined_0.bytes_read,
                    stdout_bytes: events[4]->StdoutJoined_0.bytes_written,
                    stderr_bytes: events[5]->StderrJoined_0.bytes_written,
                },
            )
        },
{
    let n = events.len() as int;
    assert(events.take(0) =~= Seq::empty());
    assert(events.take(n) =~= events);
    if n >= 1 {
        lemma_turn(events, 0);
    }
    if n >= 2 {
        lemma_turn(events, 1);
    }
    if n >= 3 {
        lemma_turn(events, 2);
    }
    if n >= 4 {
        lemma_turn(events, 3);
    }
    if n >= 5 {
        lemma_turn(events, 4);
    }
    if n >= 6 {
        lemma_turn(events, 5);
    }
    if n >= 7 {
        lemma_turn(events, 6);
    }
    assert(actions_done(events) =~= teardown_order().take(n));
}

proof fn lemma_turn(events: Seq<TeardownEvent>, i: int)
    requires
        in_turn(events),
        0 <= i < events.len(),
    ensures
        completes(teardown_after(events.take(i)), events[i]),
        teardown_after(events.take(i + 1)) == teardown_step(
            teardown_after(events.take(i)),
            events[i],
        ),
{
    assert(events.take(i + 1).drop_last() =~= events.take(i));
}

/// The exit code that is reported is the one that the process had; a process that had
/// none, or could not be waited for, is reported to have failed, with the code one.
pub proof fn law_exit_code_is_that_of_the_process(code: i32)
    ensures
        exit_code_of(Some(Some(code))) == code,
        exit_code_of(Some(None)) == 1,
        exit_code_of(None) == 1,
{
}

/// The steps of a shutdown, whatever fails: kill, wait, send the end of the input, and
/// wait for the writer and both readers. Then the report gives the exit code of the
/// process and the three counts, each in its own place.
pub proof fn law_report_is_what_came_in(
    killed: bool,
    waited: Option<Option<i32>>,
    told: bool,
    stdin: StdinStats,
    stdout: StdoutStats,
    stderr: StderrStats,
)
    ensures
        ({
            let t1 = teardown_step(Teardown::Killing, TeardownEvent::Killed(killed));
            let t2 = teardown_step(t1, TeardownEvent::Waited(waited));
            let t3 = teardown_step(t2, TeardownEvent::EofSent(told));
            let t4 = teardown_step(t3, TeardownEvent::StdinJoined(stdin));
            let t5 = teardown_step(t4, TeardownEvent::StdoutJoined(stdout));
            let t6 = teardown_step(t5, TeardownEvent::StderrJoined(stderr));
            &&& teardown_action(Teardown::Killing) is Kill
            &&& teardown_action(t1) is Wait
            &&& teardown_action(t2) is SendEof
            &&& teardown_action(t3) is JoinStdin
            &&& teardown_action(t4) is JoinStdout
            &&& teardown_action(t5) is JoinStderr
            &&& teardown_action(t6) matches TeardownAction::Report(report)
            &&& report.exit_code == (match waited {
                Some(Some(code)) => code,
                _ => 1,
            })
            &&& report.stdin_bytes == stdin.bytes_read
            &&& report.stdout_bytes == stdout.bytes_written
            &&& report.stderr_bytes == stderr.bytes_written
        }),
{
}

} // verus!
