use textadventurer::catalog::{to_game_response, to_games_json, to_games_response, GameConfig};

fn config(name: &str, author: &str, description: &str) -> GameConfig {
    GameConfig {
        name: name.to_string(),
        description: description.to_string(),
        author: author.to_string(),
        application: "/bin/run".to_string(),
        args: vec!["-q".to_string()],
    }
}

#[test]
fn game_response_carries_what_players_see() {
    let response = to_game_response(&("zork".to_string(), config("Zork", "Infocom", "A cave.")));
    assert_eq!(response.id, "zork");
    assert_eq!(response.name, "Zork");
    assert_eq!(response.author, "Infocom");
    assert_eq!(response.description, "A cave.");
    assert_eq!(response.play.url, "/play/zork");
}

#[test]
fn games_response_keeps_the_order_of_the_catalogue() {
    let configs = vec![
        ("b".to_string(), config("B", "x", "1")),
        ("a".to_string(), config("A", "y", "2")),
    ];
    let response = to_games_response(&configs);
    let ids: Vec<&str> = response.games.iter().map(|game| game.id.as_str()).collect();
    assert_eq!(ids, vec!["b", "a"]);
}

#[test]
fn games_json_is_indented_and_ordered() {
    let configs = vec![("zork".to_string(), config("Zork", "Info\"com", "A cave."))];
    let expected = "{\n  \"games\": [\n    {\n      \"id\": \"zork\",\n      \"name\": \"Zork\",\n      \"author\": \"Info\\\"com\",\n      \"description\": \"A cave.\",\n      \"play\": {\n        \"url\": \"/play/zork\"\n      }\n    }\n  ]\n}";
    assert_eq!(String::from_utf8(to_games_json(&configs).unwrap()).unwrap(), expected);
}

#[test]
fn games_json_of_an_empty_catalogue() {
    assert_eq!(to_games_json(&vec![]).unwrap(), b"{\n  \"games\": []\n}".to_vec());
}

#[test]
fn cloned_config_is_the_same() {
    let original = config("N", "A", "D");
    let copy = original.clone();
    assert_eq!(copy.name, original.name);
    assert_eq!(copy.author, original.author);
    assert_eq!(copy.description, original.description);
    assert_eq!(copy.application, original.application);
    assert_eq!(copy.args, original.args);
}

#[test]
fn play_urls_tell_games_apart() {
    let a = to_game_response(&("a".to_string(), config("Same", "x", "y")));
    let b = to_game_response(&("b".to_string(), config("Same", "x", "y")));
    assert_ne!(a.play.url, b.play.url);
}
