//! The games on offer, and the list of them that clients fetch.
use crate::json;
use crate::json::{field_views, json_array, json_object, json_pretty, json_string};
use serde_json::{Error, Value};
use vstd::prelude::*;

verus! {

/// How one game is presented and run, as its directory's configuration file
/// says.
#[derive(Debug)]
pub struct GameConfig {
    pub name: String,
    pub description: String,
    pub author: String,
    pub application: String,
    pub args: Vec<String>,
}

/// What a [`GameConfig`] says.
#[verifier::ext_equal]
pub struct GameConfigView {
    pub name: Seq<char>,
    pub description: Seq<char>,
    pub author: Seq<char>,
    pub application: Seq<char>,
    pub args: Seq<Seq<char>>,
}

/// The texts that a row of strings holds.
pub open spec fn text_views(texts: Seq<String>) -> Seq<Seq<char>> {
    texts.map_values(|text: String| text@)
}

impl View for GameConfig {
    type V = GameConfigView;

    open spec fn view(&self) -> GameConfigView {
        GameConfigView {
            name: self.name@,
            description: self.description@,
            author: self.author@,
            application: self.application@,
            args: text_views(self.args@),
        }
    }
}

/// A copy of a row of strings.
pub(crate) fn clone_texts(texts: &Vec<String>) -> (copy: Vec<String>)
    ensures
        text_views(copy@) == text_views(texts@),
        copy@.len() == texts@.len(),
        forall|i: int| 0 <= i < texts@.len() ==> (#[trigger] copy@[i])@ == texts@[i]@,
{
    let copy = texts.clone();
    proof {
        assert forall|i: int| 0 <= i < texts@.len() implies copy@[i]@ == texts@[i]@ by {
            assert(cloned::<String>(texts@[i], copy@[i]));
        }
        assert(text_views(copy@) =~= text_views(texts@));
    }
    copy
}

impl Clone for GameConfig {
    fn clone(&self) -> (copy: Self)
        ensures
            copy@ == self@,
            copy.name@ == self.name@,
            copy.description@ == self.description@,
            copy.author@ == self.author@,
            copy.application@ == self.application@,
            copy.args@.len() == self.args@.len(),
            forall|i: int|
                0 <= i < self.args@.len() ==> (#[trigger] copy.args@[i])@ == self.args@[i]@,
    {
        GameConfig {
            name: self.name.clone(),
            description: self.description.clone(),
            author: self.author.clone(),
            application: self.application.clone(),
            args: clone_texts(&self.args),
        }
    }
}

/// The list of games that clients fetch.
#[derive(Debug)]
pub struct GamesResponse {
    pub games: Vec<GameResponse>,
}

/// One game in the list.
#[derive(Debug)]
pub struct GameResponse {
    pub id: String,
    pub name: String,
    pub author: String,
    pub description: String,
    pub play: GamePlayDetailsResponse,
}

/// Where a game is played.
#[derive(Debug)]
pub struct GamePlayDetailsResponse {
    pub url: String,
}

/// What a [`GameResponse`] says.
#[verifier::ext_equal]
pub struct GameResponseView {
    pub id: Seq<char>,
    pub name: Seq<char>,
    pub author: Seq<char>,
    pub description: Seq<char>,
    pub url: Seq<char>,
}

impl View for GameResponse {
    type V = GameResponseView;

    open spec fn view(&self) -> GameResponseView {
        GameResponseView {
            id: self.id@,
            name: self.name@,
            author: self.author@,
            description: self.description@,
            url: self.play.url@,
        }
    }
}

impl View for GamesResponse {
    type V = Seq<GameResponseView>;

    open spec fn view(&self) -> Seq<GameResponseView> {
        self.games@.map_values(|game: GameResponse| game@)
    }
}

/// A game's id and configuration, as values.
pub type Listed = (Seq<char>, GameConfigView);

/// The games of a catalogue, as values.
pub open spec fn config_views(configs: Seq<(String, GameConfig)>) -> Seq<Listed> {
    configs.map_values(|config: (String, GameConfig)| (config.0@, config.1@))
}

/// The entry that the list holds for a game.
pub open spec fn game_response(config: Listed) -> GameResponseView {
    GameResponseView {
        id: config.0,
        name: config.1.name,
        author: config.1.author,
        description: config.1.description,
        url: "/play/"@ + config.0,
    }
}

/// The list for a catalogue: an entry for each game, in the same order.
pub open spec fn games_response(configs: Seq<Listed>) -> Seq<GameResponseView> {
    configs.map_values(|config: Listed| game_response(config))
}

/// The list's entry for one game. It carries what players see of the game, not
/// how it is run, and a play URL made of the game's id.
pub fn to_game_response(config: &(String, GameConfig)) -> (response: GameResponse)
    ensures
        response@ == game_response((config.0@, config.1@)),
        response.id@ == config.0@,
        response.name@ == config.1.name@,
        response.author@ == config.1.author@,
        response.description@ == config.1.description@,
        response.play.url@ == "/play/"@ + config.0@,
{
    let mut url = "/play/".to_owned();
    url.append(config.0.as_str());
    GameResponse {
        id: config.0.clone(),
        name: config.1.name.clone(),
        author: config.1.author.clone(),
        description: config.1.description.clone(),
        play: GamePlayDetailsResponse { url },
    }
}

/// The list of the games in a catalogue.
pub fn to_games_response(configs: &Vec<(String, GameConfig)>) -> (response: GamesResponse)
    ensures
        response@ == games_response(config_views(configs@)),
        response.games@.len() == configs@.len(),
        forall|i: int|
            #![trigger response.games@[i]]
            #![trigger configs@[i]]
            0 <= i < configs@.len() ==> {
                &&& response.games@[i].id@ == configs@[i].0@
                &&& response.games@[i].name@ == configs@[i].1.name@
                &&& response.games@[i].author@ == configs@[i].1.author@
                &&& response.games@[i].description@ == configs@[i].1.description@
                &&& response.games@[i].play.url@ == "/play/"@ + configs@[i].0@
            },
{
    let mut games: Vec<GameResponse> = Vec::new();
    for i in 0..configs.len()
        invariant
            games@.len() == i,
            forall|j: int|
                0 <= j < i ==> (#[trigger] games@[j])@ == game_response(
                    (configs@[j].0@, configs@[j].1@),
                ),
            forall|j: int|
                0 <= j < i ==> {
                    &&& (#[trigger] games@[j]).id@ == configs@[j].0@
                    &&& games@[j].name@ == configs@[j].1.name@
                    &&& games@[j].author@ == configs@[j].1.author@
                    &&& games@[j].description@ == configs@[j].1.description@
                    &&& games@[j].play.url@ == "/play/"@ + configs@[j].0@
                },
    {
        games.push(to_game_response(&configs[i]));
    }
    let response = GamesResponse { games };
    assert(response@ =~= games_response(config_views(configs@)));
    response
}

/// One game of the list as a JSON object.
pub open spec fn game_json(game: GameResponseView) -> Value {
    json_object(
        seq![
            ("id"@, json_string(game.id)),
            ("name"@, json_string(game.name)),
            ("author"@, json_string(game.author)),
            ("description"@, json_string(game.description)),
            ("play"@, json_object(seq![("url"@, json_string(game.url))])),
        ],
    )
}

/// The list as a JSON document.
pub open spec fn games_json(games: Seq<GameResponseView>) -> Value {
    json_object(
        seq![("games"@, json_array(games.map_values(|game: GameResponseView| game_json(game))))],
    )
}

fn game_to_json(game: &GameResponse) -> (value: Value)
    ensures
        value == game_json(game@),
{
    let mut play: Vec<(String, Value)> = Vec::new();
    play.push(("url".to_owned(), json::string(game.play.url.clone())));
    assert(field_views(play@) =~= seq![("url"@, json_string(game@.url))]);
    let mut fields: Vec<(String, Value)> = Vec::new();
    fields.push(("id".to_owned(), json::string(game.id.clone())));
    fields.push(("name".to_owned(), json::string(game.name.clone())));
    fields.push(("author".to_owned(), json::string(game.author.clone())));
    fields.push(("description".to_owned(), json::string(game.description.clone())));
    fields.push(("play".to_owned(), json::object(play)));
    assert(field_views(fields@) =~= seq![
        ("id"@, json_string(game@.id)),
        ("name"@, json_string(game@.name)),
        ("author"@, json_string(game@.author)),
        ("description"@, json_string(game@.description)),
        ("play"@, json_object(seq![("url"@, json_string(game@.url))])),
    ]);
    json::object(fields)
}

fn games_to_json(response: &GamesResponse) -> (value: Value)
    ensures
        value == games_json(response@),
{
    let mut games: Vec<Value> = Vec::new();
    for i in 0..response.games.len()
        invariant
            games@.len() == i,
            forall|j: int|
                0 <= j < i ==> #[trigger] games@[j] == game_json(response.games@[j]@),
    {
        games.push(game_to_json(&response.games[i]));
    }
    assert(games@ =~= response@.map_values(|game: GameResponseView| game_json(game)));
    let mut fields: Vec<(String, Value)> = Vec::new();
    fields.push(("games".to_owned(), json::array(games)));
    assert(field_views(fields@) =~= seq![("games"@, json_array(games@))]);
    json::object(fields)
}

/// The document that clients fetch: the list of the games in a catalogue, as
/// indented JSON.
pub fn to_games_json(configs: &Vec<(String, GameConfig)>) -> (printed: Result<Vec<u8>, Error>)
    ensures
        printed is Ok,
        printed->Ok_0@ == json_pretty(games_json(games_response(config_views(configs@)))),
        exists|items: Seq<Value>| #[trigger]
            is_list_of(items, configs@) && printed->Ok_0@ == json_pretty(
                json_object(seq![("games"@, json_array(items))]),
            ),
{
    let response = to_games_response(configs);
    let document = games_to_json(&response);
    proof {
        law_list_holds_every_game(configs@);
    }
    json::to_vec_pretty(&document)
}

/// A play URL belongs to one game id: games with different ids have different
/// URLs.
pub proof fn law_play_urls_tell_games_apart(one: Listed, other: Listed)
    ensures
        game_response(one).url == game_response(other).url <==> one.0 == other.0,
{
    let prefix = "/play/"@;
    if game_response(one).url == game_response(other).url {
        let n = prefix.len() as int;
        assert(one.0 =~= (prefix + one.0).skip(n));
        assert(other.0 =~= (prefix + other.0).skip(n));
    }
}

/// Whether `items` are the games of `configs` as JSON objects: one for each game, in
/// order, with its id, name, author and description, and an object with its play
/// URL.
pub open spec fn is_list_of(items: Seq<Value>, configs: Seq<(String, GameConfig)>) -> bool {
    &&& items.len() == configs.len()
    &&& forall|i: int|
        0 <= i < configs.len() ==> #[trigger] items[i] == json_object(
            seq![
                ("id"@, json_string(configs[i].0@)),
                ("name"@, json_string(configs[i].1.name@)),
                ("author"@, json_string(configs[i].1.author@)),
                ("description"@, json_string(configs[i].1.description@)),
                (
                    "play"@,
                    json_object(seq![("url"@, json_string("/play/"@ + configs[i].0@))]),
                ),
            ],
        )
}

/// The document that is served is an object whose only field, `games`, is an array
/// with exactly one item per game of the catalogue, in the catalogue's order; and
/// each item is an object with the id, the name, the author and the description of
/// its game, and an object with its play URL.
pub proof fn law_list_holds_every_game(configs: Seq<(String, GameConfig)>)
    ensures
        exists|items: Seq<Value>|
            #![trigger json_array(items)]
            games_json(games_response(config_views(configs))) == json_object(
                seq![("games"@, json_array(items))],
            ) && is_list_of(items, configs) && items.len() == configs.len() && (forall|i: int|
                0 <= i < configs.len() ==> #[trigger] items[i] == json_object(
                    seq![
                        ("id"@, json_string(configs[i].0@)),
                        ("name"@, json_string(configs[i].1.name@)),
                        ("author"@, json_string(configs[i].1.author@)),
                        ("description"@, json_string(configs[i].1.description@)),
                        (
                            "play"@,
                            json_object(seq![("url"@, json_string("/play/"@ + configs[i].0@))]),
                        ),
                    ],
                )),
{
    let games = games_response(config_views(configs));
    let items = games.map_values(|game: GameResponseView| game_json(game));
    assert forall|i: int| 0 <= i < configs.len() implies #[trigger] items[i] == game_json(
        game_response((configs[i].0@, configs[i].1@)),
    ) by {
        assert(games[i] == game_response(config_views(configs)[i]));
    }
    assert(is_list_of(items, configs));
    assert(games_json(games) == json_object(seq![("games"@, json_array(items))]));
}

/// The entry of a game in the list carries the game's own id, name, author and
/// description, and the URL `/play/` followed by the id.
pub proof fn law_entry_tells_of_its_game(config: Listed)
    ensures
        game_response(config).id == config.0,
        game_response(config).name == config.1.name,
        game_response(config).author == config.1.author,
        game_response(config).description == config.1.description,
        game_response(config).url == seq!['/', 'p', 'l', 'a', 'y', '/'] + config.0,
{
    reveal_strlit("/play/");
    assert("/play/"@ =~= seq!['/', 'p', 'l', 'a', 'y', '/']);
}

/// The list has one entry per game, and the entry at each place is that of the game
/// at the same place of the catalogue.
pub proof fn law_list_is_complete_and_in_order(configs: Seq<Listed>, i: int)
    ensures
        games_response(configs).len() == configs.len(),
        0 <= i < configs.len() ==> {
            &&& games_response(configs)[i].id == configs[i].0
            &&& games_response(configs)[i].name == configs[i].1.name
            &&& games_response(configs)[i].author == configs[i].1.author
            &&& games_response(configs)[i].description == configs[i].1.description
            &&& games_response(configs)[i].url == "/play/"@ + configs[i].0
        },
{
}

/// The values that stand for configurations, list entries and catalogues tell all of
/// their fields, so two that are told apart by a field have different values.
pub proof fn law_values_tell_every_field(
    config: GameConfig,
    game: GameResponse,
    list: GamesResponse,
    catalogue: Seq<(String, GameConfig)>,
    i: int,
)
    ensures
        config@.name == config.name@,
        config@.description == config.description@,
        config@.author == config.author@,
        config@.application == config.application@,
        config@.args.len() == config.args@.len(),
        0 <= i < config.args@.len() ==> config@.args[i] == config.args@[i]@,
        game@.id == game.id@,
        game@.name == game.name@,
        game@.author == game.author@,
        game@.description == game.description@,
        game@.url == game.play.url@,
        list@.len() == list.games@.len(),
        0 <= i < list.games@.len() ==> list@[i] == list.games@[i]@,
        config_views(catalogue).len() == catalogue.len(),
        0 <= i < catalogue.len() ==> config_views(catalogue)[i] == (
            catalogue[i].0@,
            catalogue[i].1@,
        ),
{
}

} // verus!
