//! One player's game: a process that is started when the player's websocket
//! opens, fed with what the player sends, and stopped when either side is done.
//!
//! A [`GameActor`] decides; the caller owns the socket and the process `P` and
//! does what the actor's [`Reaction`]s say.
use crate::buffer;
use crate::buffer::contents;
use crate::catalog::{clone_texts, text_views, GameConfig, GameConfigView};
use crate::streams::{ExitMsg, StdinMessage, StdoutMsg};
use crate::text::{decimal, display_usize};
use bytes::Bytes;
use vstd::prelude::*;
use vstd::utf8::encode_utf8;

verus! {

/// How far a game's process is. `P` is what the caller needs to run it.
#[derive(Debug)]
pub enum ProcessSt<P> {
    Booting,
    Booted(P),
    Exited,
}

/// A game that one player plays.
#[derive(Debug)]
pub struct GameActor<P> {
    pub id: usize,
    pub config: GameConfig,
    pub game_dir: String,
    pub process_st: ProcessSt<P>,
}

/// How a game's process and the threads on its pipes are to be started. Standard
/// input, output and error are pipes.
#[derive(Debug)]
pub struct Launch {
    pub application: String,
    pub args: Vec<String>,
    pub current_dir: String,
    pub stdout_thread_name: String,
    pub stderr_thread_name: String,
    pub stdin_thread_name: String,
}

/// What a [`Launch`] says.
#[verifier::ext_equal]
pub struct LaunchView {
    pub application: Seq<char>,
    pub args: Seq<Seq<char>>,
    pub current_dir: Seq<char>,
    pub stdout_thread_name: Seq<char>,
    pub stderr_thread_name: Seq<char>,
    pub stdin_thread_name: Seq<char>,
}

impl View for Launch {
    type V = LaunchView;

    open spec fn view(&self) -> LaunchView {
        LaunchView {
            application: self.application@,
            args: text_views(self.args@),
            current_dir: self.current_dir@,
            stdout_thread_name: self.stdout_thread_name@,
            stderr_thread_name: self.stderr_thread_name@,
            stdin_thread_name: self.stdin_thread_name@,
        }
    }
}

/// What arrives on a player's websocket.
#[derive(Debug)]
pub enum SocketMessage {
    Text(String),
    Binary(Bytes),
    Continuation,
    Ping(Bytes),
    Pong(Bytes),
    Close,
    Nop,
    /// What arrived was no message.
    ProtocolError,
}

/// What the caller is to do.
#[derive(Debug)]
pub enum Reaction {
    /// Nothing.
    Ignore,
    /// Answer a ping.
    Pong(Bytes),
    /// Queue this for the game's standard input.
    Feed(StdinMessage),
    /// Send this to the player, as a binary message.
    Print(Bytes),
    /// Close the websocket without a reason, and stop the actor.
    CloseAndStop,
    /// Stop the actor.
    Stop,
}

/// What a [`Reaction`] says.
pub ghost enum ReactionView {
    Ignore,
    Pong(Seq<u8>),
    Feed(Option<Seq<u8>>),
    Print(Seq<u8>),
    CloseAndStop,
    Stop,
}

impl View for Reaction {
    type V = ReactionView;

    open spec fn view(&self) -> ReactionView {
        match *self {
            Reaction::Ignore => ReactionView::Ignore,
            Reaction::Pong(bytes) => ReactionView::Pong(contents(bytes)),
            Reaction::Feed(msg) => ReactionView::Feed(msg@),
            Reaction::Print(bytes) => ReactionView::Print(contents(bytes)),
            Reaction::CloseAndStop => ReactionView::CloseAndStop,
            Reaction::Stop => ReactionView::Stop,
        }
    }
}

/// The name of a thread of the game `id`.
pub open spec fn thread_name(id: nat, task: Seq<char>) -> Seq<char> {
    "game_id "@ + decimal(id) + task
}

fn name_thread(id: usize, task: &str) -> (name: String)
    ensures
        name@ == thread_name(id as nat, task@),
{
    let mut name = "game_id ".to_owned();
    name.append(display_usize(id).as_str());
    name.append(task);
    name
}

/// How a game is launched: its application with its arguments, in its directory,
/// and a named thread for each pipe.
pub open spec fn launch_of(id: nat, config: GameConfigView, game_dir: Seq<char>) -> LaunchView {
    LaunchView {
        application: config.application,
        args: config.args,
        current_dir: game_dir,
        stdout_thread_name: thread_name(id, ": stdout reader"@),
        stderr_thread_name: thread_name(id, ": stderr reader"@),
        stdin_thread_name: thread_name(id, ": stdin writer"@),
    }
}

/// What an actor does with a message from the player. What the player sends goes
/// to the game, byte by byte, if it runs.
pub open spec fn socket_reaction(running: bool, msg: SocketMessage) -> ReactionView {
    match msg {
        SocketMessage::Ping(payload) => ReactionView::Pong(contents(payload)),
        SocketMessage::Text(text) => if running {
            ReactionView::Feed(Some(encode_utf8(text@)))
        } else {
            ReactionView::Ignore
        },
        SocketMessage::Binary(data) => if running {
            ReactionView::Feed(Some(contents(data)))
        } else {
            ReactionView::Ignore
        },
        SocketMessage::Close => ReactionView::CloseAndStop,
        _ => ReactionView::Ignore,
    }
}

/// The state after an attempt to start the process.
pub open spec fn state_after_spawn<P>(state: ProcessSt<P>, process: Option<P>) -> ProcessSt<P> {
    match process {
        Some(process) => ProcessSt::Booted(process),
        None => state,
    }
}

/// The process that is running in a state, if one is.
pub open spec fn running_process<P>(state: ProcessSt<P>) -> Option<P> {
    match state {
        ProcessSt::Booted(process) => Some(process),
        _ => None,
    }
}

impl<P> GameActor<P> {
    /// A game whose process is not started yet.
    pub fn new(id: usize, game_dir: String, config: GameConfig) -> (actor: GameActor<P>)
        ensures
            actor == (GameActor { id, config, game_dir, process_st: ProcessSt::<P>::Booting }),
    {
        GameActor { id, game_dir, config, process_st: ProcessSt::Booting }
    }

    /// The websocket is open: says how the game is to be launched.
    pub fn started(&self) -> (launch: Launch)
        ensures
            launch@ == launch_of(self.id as nat, self.config@, self.game_dir@),
            launch.application@ == self.config.application@,
            launch.args@.len() == self.config.args@.len(),
            forall|i: int|
                0 <= i < self.config.args@.len() ==> (#[trigger] launch.args@[i])@
                    == self.config.args@[i]@,
            launch.current_dir@ == self.game_dir@,
            launch.stdout_thread_name@ == "game_id "@ + decimal(self.id as nat)
                + ": stdout reader"@,
            launch.stderr_thread_name@ == "game_id "@ + decimal(self.id as nat)
                + ": stderr reader"@,
            launch.stdin_thread_name@ == "game_id "@ + decimal(self.id as nat) + ": stdin writer"@,
    {
        Launch {
            application: self.config.application.clone(),
            args: clone_texts(&self.config.args),
            current_dir: self.game_dir.clone(),
            stdout_thread_name: name_thread(self.id, ": stdout reader"),
            stderr_thread_name: name_thread(self.id, ": stderr reader"),
            stdin_thread_name: name_thread(self.id, ": stdin writer"),
        }
    }

    /// Takes in the process that was started. Where none could be, the actor is
    /// to stop.
    pub fn spawned(&mut self, process: Option<P>) -> (reaction: Reaction)
        ensures
            *final(self) == (GameActor {
                process_st: state_after_spawn(old(self).process_st, process),
                ..*old(self)
            }),
            reaction@ == (if process is Some {
                ReactionView::Ignore
            } else {
                ReactionView::Stop
            }),
            process matches Some(p) ==> final(self).process_st == ProcessSt::Booted(p)
                && reaction is Ignore,
            process is None ==> final(self).process_st == old(self).process_st && reaction is Stop,
    {
        match process {
            Some(process) => {
                self.process_st = ProcessSt::Booted(process);
                Reaction::Ignore
            },
            None => Reaction::Stop,
        }
    }

    /// The process of the game, if it runs.
    pub fn process(&self) -> (process: Option<&P>)
        ensures
            match process {
                Some(p) => running_process(self.process_st) == Some(*p),
                None => running_process(self.process_st) is None,
            },
            match self.process_st {
                ProcessSt::Booted(p) => process == Some(&p),
                _ => process is None,
            },
    {
        match &self.process_st {
            ProcessSt::Booted(process) => Some(process),
            _ => None,
        }
    }

    /// Takes in a message from the player.
    pub fn handle(&self, msg: SocketMessage) -> (reaction: Reaction)
        ensures
            reaction@ == socket_reaction(running_process(self.process_st) is Some, msg),
            match msg {
                SocketMessage::Text(text) => if self.process_st is Booted {
                    reaction matches Reaction::Feed(StdinMessage::Data(data)) && data@
                        == encode_utf8(text@)
                } else {
                    reaction is Ignore
                },
                SocketMessage::Binary(payload) => if self.process_st is Booted {
                    reaction matches Reaction::Feed(StdinMessage::Data(data)) && data@ == contents(
                        payload,
                    )
                } else {
                    reaction is Ignore
                },
                SocketMessage::Ping(payload) => reaction matches Reaction::Pong(answer)
                    && contents(answer) == contents(payload),
                SocketMessage::Close => reaction is CloseAndStop,
                SocketMessage::Continuation => reaction is Ignore,
                SocketMessage::Pong(_) => reaction is Ignore,
                SocketMessage::Nop => reaction is Ignore,
                SocketMessage::ProtocolError => reaction is Ignore,
            },
    {
        let running = self.process().is_some();
        match msg {
            SocketMessage::Ping(payload) => Reaction::Pong(payload),
            SocketMessage::Text(text) => {
                if running {
                    Reaction::Feed(StdinMessage::Data(text.as_str().as_bytes_vec()))
                } else {
                    Reaction::Ignore
                }
            },
            SocketMessage::Binary(data) => {
                if running {
                    Reaction::Feed(StdinMessage::Data(buffer::to_vec(&data)))
                } else {
                    Reaction::Ignore
                }
            },
            // Firefox sends this before it closes the TCP channel, and keeps the
            // channel open until it is answered.
            SocketMessage::Close => Reaction::CloseAndStop,
            _ => Reaction::Ignore,
        }
    }

    /// The player's messages are at their end.
    pub fn finished(&self) -> (reaction: Reaction)
        ensures
            reaction@ == ReactionView::Stop,
            reaction is Stop,
    {
        Reaction::Stop
    }

    /// Takes in what the game printed, which the player is to see.
    pub fn handle_stdout(&self, msg: StdoutMsg) -> (reaction: Reaction)
        ensures
            reaction@ == ReactionView::Print(contents(msg.bytes)),
            reaction matches Reaction::Print(bytes) && contents(bytes) == contents(msg.bytes),
    {
        Reaction::Print(msg.bytes)
    }

    /// Takes in that the game has closed its outputs.
    pub fn handle_exit(&self, _msg: ExitMsg) -> (reaction: Reaction)
        ensures
            reaction@ == ReactionView::Stop,
            reaction is Stop,
    {
        Reaction::Stop
    }

    /// The actor is stopping: hands out the process that is to be shut down, if
    /// one runs.
    pub fn stopping(&mut self) -> (process: Option<P>)
        ensures
            *final(self) == (GameActor { process_st: ProcessSt::Exited, ..*old(self) }),
            process == running_process(old(self).process_st),
            match old(self).process_st {
                ProcessSt::Booted(p) => process == Some(p),
                _ => process is None,
            },
    {
        let mut state = ProcessSt::Exited;
        std::mem::swap(&mut state, &mut self.process_st);
        match state {
            ProcessSt::Booted(process) => Some(process),
            _ => None,
        }
    }
}

/// What changes the state of an actor's process.
pub ghost enum ActorEvent<P> {
    Spawned(Option<P>),
    Stopping,
}

/// The state of an actor's process after these events.
pub open spec fn state_after<P>(events: Seq<ActorEvent<P>>) -> ProcessSt<P>
    decreases events.len(),
{
    if events.len() == 0 {
        ProcessSt::Booting
    } else {
        match events.last() {
            ActorEvent::Spawned(process) => state_after_spawn(
                state_after(events.drop_last()),
                process,
            ),
            ActorEvent::Stopping => ProcessSt::Exited,
        }
    }
}

/// Whether `process` was started by the event at `i`, and since then no other was
/// started and the actor has not stopped.
pub open spec fn runs_since<P>(events: Seq<ActorEvent<P>>, i: int, process: P) -> bool {
    &&& 0 <= i < events.len()
    &&& events[i] == ActorEvent::Spawned(Some(process))
    &&& forall|j: int|
        i < j < events.len() ==> #[trigger] events[j] == ActorEvent::Spawned(None::<P>)
}

/// What the player sends reaches a process exactly while it runs: from when it was
/// started until the actor stops.
pub proof fn law_input_reaches_a_running_game<P>(events: Seq<ActorEvent<P>>, msg: SocketMessage)
    ensures
        forall|process: P|
            running_process(state_after(events)) == Some(process) <==> exists|i: int| #[trigger]
                runs_since(events, i, process),
        socket_reaction(running_process(state_after(events)) is Some, msg) is Feed <==> (
        msg is Text || msg is Binary) && exists|i: int, process: P| #[trigger]
            runs_since(events, i, process),
{
    assert forall|process: P|
        running_process(state_after(events)) == Some(process) <==> exists|i: int| #[trigger]
            runs_since(events, i, process) by {
        lemma_running(events, process);
    }
    if let Some(process) = running_process(state_after(events)) {
        let i = choose|i: int| #[trigger] runs_since(events, i, process);
        assert(runs_since(events, i, process));
    }
}

proof fn lemma_running<P>(events: Seq<ActorEvent<P>>, process: P)
    ensures
        running_process(state_after(events)) == Some(process) <==> exists|i: int| #[trigger]
            runs_since(events, i, process),
    decreases events.len(),
{
    if events.len() > 0 {
        let before = events.drop_last();
        let end = events.len() - 1;
        lemma_running(before, process);
        if exists|i: int| #[trigger] runs_since(before, i, process) {
            let i = choose|i: int| #[trigger] runs_since(before, i, process);
            if events.last() == ActorEvent::Spawned(None::<P>) {
                assert forall|j: int| i < j < events.len() implies #[trigger] events[j]
                    == ActorEvent::Spawned(None::<P>) by {
                    if j < end {
                        assert(before[j] == events[j]);
                    }
                }
                assert(runs_since(events, i, process));
            }
        }
        if exists|i: int| #[trigger] runs_since(events, i, process) {
            let i = choose|i: int| #[trigger] runs_since(events, i, process);
            if i < end {
                assert(events[end] == ActorEvent::Spawned(None::<P>));
                assert(before[i] == events[i]);
                assert forall|j: int| i < j < before.len() implies #[trigger] before[j]
                    == ActorEvent::Spawned(None::<P>) by {
                    assert(events[j] == ActorEvent::Spawned(None::<P>));
                }
                assert(runs_since(before, i, process));
            }
        }
        if events.last() == ActorEvent::Spawned(Some(process)) {
            assert(runs_since(events, end, process));
        }
    }
}

/// A process is handed out for shutdown once. What a stop hands out is what runs
/// just before it; so of two stops with no process started between them, the second
/// has nothing to hand out.
pub proof fn law_process_is_shut_down_once<P>(events: Seq<ActorEvent<P>>, first: int, second: int)
    requires
        0 <= first < second < events.len(),
        events[first] == ActorEvent::<P>::Stopping,
        events[second] == ActorEvent::<P>::Stopping,
        forall|k: int|
            first < k < second ==> !(#[trigger] events[k] matches ActorEvent::Spawned(Some(_))),
    ensures
        running_process(state_after(events.take(second))) is None,
{
    lemma_nothing_runs(events, first, second);
}

proof fn lemma_nothing_runs<P>(events: Seq<ActorEvent<P>>, stop: int, end: int)
    requires
        0 <= stop < end <= events.len(),
        events[stop] == ActorEvent::<P>::Stopping,
        forall|k: int|
            stop < k < end ==> !(#[trigger] events[k] matches ActorEvent::Spawned(Some(_))),
    ensures
        running_process(state_after(events.take(end))) is None,
    decreases end,
{
    let before = events.take(end);
    assert(before.drop_last() =~= events.take(end - 1));
    assert(before.last() == events[end - 1]);
    if end > stop + 1 {
        lemma_nothing_runs(events, stop, end - 1);
    }
}

/// What the player sends to a running game is fed to it whole: the bytes are those of
/// the text in UTF-8, or of the payload, as many and the same ones at each place. To a
/// game that does not run, nothing is fed.
pub proof fn law_input_is_fed_byte_for_byte(text: String, payload: Bytes)
    ensures
        socket_reaction(true, SocketMessage::Text(text)) matches ReactionView::Feed(Some(fed))
            && fed.len() == encode_utf8(text@).len() && (forall|i: int|
            0 <= i < fed.len() ==> #[trigger] fed[i] == encode_utf8(text@)[i]),
        socket_reaction(true, SocketMessage::Binary(payload)) matches ReactionView::Feed(Some(fed))
            && fed.len() == contents(payload).len() && (forall|i: int|
            0 <= i < fed.len() ==> #[trigger] fed[i] == contents(payload)[i]),
        socket_reaction(false, SocketMessage::Text(text)) is Ignore,
        socket_reaction(false, SocketMessage::Binary(payload)) is Ignore,
{
}

/// Texts that differ are fed as different bytes: no two messages of a player look the
/// same to the game.
pub proof fn law_different_texts_are_fed_differently(one: String, other: String)
    requires
        socket_reaction(true, SocketMessage::Text(one)) == socket_reaction(
            true,
            SocketMessage::Text(other),
        ),
    ensures
        one@ == other@,
{
    vstd::utf8::encode_utf8_decode_utf8(one@);
    vstd::utf8::encode_utf8_decode_utf8(other@);
}

/// In every state, a ping is answered with its own payload, a close closes and stops,
/// and all that is neither of these nor input is ignored.
pub proof fn law_control_messages_do_not_reach_the_game(running: bool, payload: Bytes)
    ensures
        socket_reaction(running, SocketMessage::Ping(payload)) == ReactionView::Pong(
            contents(payload),
        ),
        socket_reaction(running, SocketMessage::Close) is CloseAndStop,
        socket_reaction(running, SocketMessage::Pong(payload)) is Ignore,
        socket_reaction(running, SocketMessage::Continuation) is Ignore,
        socket_reaction(running, SocketMessage::Nop) is Ignore,
        socket_reaction(running, SocketMessage::ProtocolError) is Ignore,
{
}

/// A game is launched as it is configured: its application, with all its arguments in
/// order, in its directory; and its threads are named after its id and their tasks.
pub proof fn law_launch_is_as_configured(
    id: nat,
    config: GameConfigView,
    game_dir: Seq<char>,
    launch: Launch,
    i: int,
)
    requires
        launch@ == launch_of(id, config, game_dir),
    ensures
        launch.application@ == config.application,
        launch.args@.len() == config.args.len(),
        0 <= i < config.args.len() ==> launch.args@[i]@ == config.args[i],
        launch.current_dir@ == game_dir,
        launch.stdout_thread_name@ == "game_id "@ + decimal(id) + ": stdout reader"@,
        launch.stderr_thread_name@ == "game_id "@ + decimal(id) + ": stderr reader"@,
        launch.stdin_thread_name@ == "game_id "@ + decimal(id) + ": stdin writer"@,
{
    assert(0 <= i < launch.args@.len() ==> launch@.args[i] == launch.args@[i]@);
}

/// A process that was started runs until the actor stops, which hands it out; where
/// none could be started, what ran before still does.
pub proof fn law_started_process_is_the_one_that_runs<P>(
    events: Seq<ActorEvent<P>>,
    state: ProcessSt<P>,
    process: P,
)
    ensures
        state_after_spawn(state, Some(process)) == ProcessSt::Booted(process),
        state_after_spawn(state, None) == state,
        running_process(ProcessSt::Booted(process)) == Some(process),
        running_process(ProcessSt::<P>::Booting) is None,
        running_process(ProcessSt::<P>::Exited) is None,
        state_after(events.push(ActorEvent::Spawned(Some(process)))) == ProcessSt::Booted(process),
        state_after(events.push(ActorEvent::Stopping)) is Exited,
{
}

} // verus!
