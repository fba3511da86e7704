use bytes::Bytes;
use textadventurer::actor::{GameActor, ProcessSt, Reaction, SocketMessage};
use textadventurer::catalog::GameConfig;
use textadventurer::streams::{ExitMsg, StdinMessage, StdoutMsg};

fn actor(id: usize) -> GameActor<&'static str> {
    GameActor::new(
        id,
        "games/zork".to_string(),
        GameConfig {
            name: "Zork".to_string(),
            description: "A cave.".to_string(),
            author: "Infocom".to_string(),
            application: "frotz".to_string(),
            args: vec!["-p".to_string(), "zork.z5".to_string()],
        },
    )
}

fn booted(id: usize) -> GameActor<&'static str> {
    let mut actor = actor(id);
    assert!(matches!(actor.spawned(Some("process")), Reaction::Ignore));
    actor
}

fn fed(reaction: Reaction) -> Option<Vec<u8>> {
    match reaction {
        Reaction::Feed(StdinMessage::Data(data)) => Some(data),
        _ => None,
    }
}

#[test]
fn new_actor_is_booting() {
    let actor = actor(3);
    assert_eq!(actor.id, 3);
    assert_eq!(actor.game_dir, "games/zork");
    assert!(matches!(actor.process_st, ProcessSt::Booting));
    assert!(actor.process().is_none());
}

#[test]
fn launch_is_what_the_configuration_says() {
    let launch = actor(120).started();
    assert_eq!(launch.application, "frotz");
    assert_eq!(launch.args, vec!["-p", "zork.z5"]);
    assert_eq!(launch.current_dir, "games/zork");
    assert_eq!(launch.stdout_thread_name, "game_id 120: stdout reader");
    assert_eq!(launch.stderr_thread_name, "game_id 120: stderr reader");
    assert_eq!(launch.stdin_thread_name, "game_id 120: stdin writer");
}

#[test]
fn thread_names_count_from_zero() {
    assert_eq!(actor(0).started().stdin_thread_name, "game_id 0: stdin writer");
    for id in vec![9, 10, 99, 100, 1234567890] {
        assert_eq!(actor(id).started().stdin_thread_name, format!("game_id {}: stdin writer", id));
    }
    let last = format!("game_id {}: stdin writer", usize::MAX);
    assert_eq!(actor(usize::MAX).started().stdin_thread_name, last);
}

#[test]
fn actor_stops_when_nothing_could_be_spawned() {
    let mut actor = actor(0);
    assert!(matches!(actor.spawned(None), Reaction::Stop));
    assert!(matches!(actor.process_st, ProcessSt::Booting));
    assert!(actor.stopping().is_none());
    assert!(matches!(actor.process_st, ProcessSt::Exited));
}

#[test]
fn player_input_goes_to_the_running_game() {
    let actor = booted(0);
    assert_eq!(actor.process(), Some(&"process"));
    let text = actor.handle(SocketMessage::Text("öffne\n".to_string()));
    assert_eq!(fed(text), Some("öffne\n".as_bytes().to_vec()));
    let binary = actor.handle(SocketMessage::Binary(Bytes::from(vec![0, 255, 7])));
    assert_eq!(fed(binary), Some(vec![0, 255, 7]));
}

#[test]
fn player_input_is_dropped_without_a_running_game() {
    let mut actor = booted(0);
    actor.stopping();
    for actor in vec![self::actor(0), actor] {
        assert!(matches!(actor.handle(SocketMessage::Text("x".to_string())), Reaction::Ignore));
        let binary = SocketMessage::Binary(Bytes::from(vec![1]));
        assert!(matches!(actor.handle(binary), Reaction::Ignore));
    }
}

#[test]
fn pings_are_answered_in_every_state() {
    for actor in vec![actor(0), booted(0)] {
        match actor.handle(SocketMessage::Ping(Bytes::from(vec![1, 2]))) {
            Reaction::Pong(payload) => assert_eq!(payload.to_vec(), vec![1, 2]),
            _ => panic!("no pong"),
        }
    }
}

#[test]
fn close_closes_and_stops() {
    assert!(matches!(booted(0).handle(SocketMessage::Close), Reaction::CloseAndStop));
    assert!(matches!(actor(0).handle(SocketMessage::Close), Reaction::CloseAndStop));
}

#[test]
fn other_messages_are_ignored() {
    let messages = vec![
        SocketMessage::Continuation,
        SocketMessage::Pong(Bytes::from(vec![1])),
        SocketMessage::Nop,
        SocketMessage::ProtocolError,
    ];
    for msg in messages {
        assert!(matches!(booted(0).handle(msg), Reaction::Ignore));
    }
}

#[test]
fn game_output_goes_to_the_player() {
    match actor(0).handle_stdout(StdoutMsg { bytes: Bytes::from(vec![9, 8]) }) {
        Reaction::Print(bytes) => assert_eq!(bytes.to_vec(), vec![9, 8]),
        _ => panic!("nothing printed"),
    }
}

#[test]
fn exit_and_end_of_messages_stop_the_actor() {
    assert!(matches!(booted(0).handle_exit(ExitMsg), Reaction::Stop));
    assert!(matches!(booted(0).finished(), Reaction::Stop));
}

#[test]
fn process_is_handed_out_once() {
    let mut actor = booted(0);
    assert_eq!(actor.stopping(), Some("process"));
    assert!(matches!(actor.process_st, ProcessSt::Exited));
    assert_eq!(actor.stopping(), None);
    actor.spawned(None);
    assert_eq!(actor.stopping(), None);
}
