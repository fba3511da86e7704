use bytes::Bytes;
use textadventurer::actor::{GameActor, ProcessSt};
use textadventurer::catalog::{to_games_json, to_games_response, GameConfig};
use textadventurer::server::{games_response_json, PlayReply, ServerState};

fn config(name: &str) -> GameConfig {
    GameConfig {
        name: name.to_string(),
        description: "d".to_string(),
        author: "a".to_string(),
        application: name.to_string(),
        args: vec!["x".to_string()],
    }
}

fn catalogue() -> Vec<(String, GameConfig)> {
    vec![
        ("zork".to_string(), config("Zork")),
        ("adventure".to_string(), config("Adventure")),
    ]
}

fn server(configs: &Vec<(String, GameConfig)>) -> ServerState {
    ServerState::new(&games_response_json(configs).unwrap(), "/srv/games", configs)
}

fn started(reply: PlayReply<()>) -> GameActor<()> {
    match reply {
        PlayReply::Start(actor) => actor,
        PlayReply::NotFound => panic!("not found"),
    }
}

#[test]
fn list_is_served_as_json() {
    let reply = server(&catalogue()).games();
    assert_eq!(reply.content_type, "application/json");
    assert_eq!(reply.body.to_vec(), to_games_json(&catalogue()).unwrap());
}

#[test]
fn list_is_served_as_given() {
    let state = ServerState::new(&Bytes::from(vec![1, 2, 3]), "g", &vec![]);
    assert_eq!(state.games().body.to_vec(), vec![1, 2, 3]);
    assert_eq!(state.games().body.to_vec(), vec![1, 2, 3]);
}

#[test]
fn known_game_is_started() {
    let mut state = server(&catalogue());
    let actor = started(state.play("adventure"));
    assert_eq!(actor.id, 0);
    assert_eq!(actor.config.name, "Adventure");
    assert_eq!(actor.config.args, vec!["x"]);
    let game_dir = std::path::Path::new("/srv/games").join("adventure");
    assert_eq!(actor.game_dir, game_dir.to_str().unwrap());
    assert!(matches!(actor.process_st, ProcessSt::Booting));
}

#[test]
fn unknown_game_is_not_found() {
    let mut state = server(&catalogue());
    assert!(matches!(state.play::<()>("nethack"), PlayReply::NotFound));
    assert!(matches!(state.play::<()>(""), PlayReply::NotFound));
    assert!(matches!(state.play::<()>("Zork"), PlayReply::NotFound));
}

#[test]
fn ids_count_the_games_that_were_started() {
    let mut state = server(&catalogue());
    assert_eq!(started(state.play("zork")).id, 0);
    assert!(matches!(state.play::<()>("nethack"), PlayReply::NotFound));
    assert_eq!(started(state.play("zork")).id, 1);
    assert_eq!(started(state.play("adventure")).id, 2);
}

#[test]
fn every_listed_game_is_the_one_played() {
    let configs = catalogue();
    let mut state = server(&configs);
    for game in to_games_response(&configs).games {
        assert_eq!(started(state.play(&game.id)).config.name, game.name);
    }
}

#[test]
fn of_games_with_the_same_id_the_last_counts() {
    let configs = vec![
        ("a".to_string(), config("first")),
        ("b".to_string(), config("other")),
        ("a".to_string(), config("last")),
    ];
    assert_eq!(started(server(&configs).play("a")).config.name, "last");
}

#[test]
fn games_are_in_the_games_directory() {
    let configs = catalogue();
    for (root, dir) in vec![("games/", "games/zork"), ("", "zork"), ("/", "/zork")] {
        let mut state = ServerState::new(&Bytes::from(vec![]), root, &configs);
        assert_eq!(started(state.play("zork")).game_dir, dir);
    }
}

#[test]
fn game_is_started_in_the_given_directory() {
    let mut state = server(&catalogue());
    let actor = started(state.play_in("zork", "/elsewhere".to_string()));
    assert_eq!(actor.game_dir, "/elsewhere");
    assert_eq!(actor.config.name, "Zork");
    assert_eq!(actor.id, 0);
    assert!(matches!(state.play_in::<()>("none", "/elsewhere".to_string()), PlayReply::NotFound));
}
