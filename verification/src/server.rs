//! What the server knows, and how it answers requests for the list of games and
//! for a game to play.
use crate::actor::{GameActor, ProcessSt};
use crate::buffer;
use crate::buffer::contents;
use crate::catalog::{
    config_views, games_json, games_response, is_list_of, to_games_json, GameConfig,
    GameConfigView, Listed,
};
use crate::json::{json_array, json_object, json_pretty};
use crate::loader::{
    games_among, is_game_directory, law_game_ids_are_distinct, law_games_are_game_directories,
    law_loading_keeps_all_games, load_outcome, names_differ, ActionView, EntryFacts,
};
use crate::paths::{
    is_join_result, is_joined, law_joined_path_is_root_then_name, path_below,
};
use bytes::Bytes;
use serde_json::{Error, Value};
use vstd::arithmetic::div_mod::{
    lemma_add_mod_noop, lemma_mod_equivalence, lemma_mod_self_0, lemma_small_mod,
};
use vstd::hash_map::StringHashMap;
use vstd::prelude::*;

verus! {

/// What a server worker knows.
pub struct ServerState {
    next_game_id: usize,
    games_response_json: Bytes,
    games_dir: String,
    configs_by_id: StringHashMap<GameConfig>,
}

/// What a [`ServerState`] holds.
#[verifier::ext_equal]
pub struct ServerView {
    /// The id that the next game gets.
    pub next_game_id: usize,
    /// The list of games, as it is served.
    pub games_response_json: Seq<u8>,
    /// The directory that the games are in.
    pub games_dir: Seq<char>,
    /// The games that can be played.
    pub configs: Map<Seq<char>, GameConfigView>,
}

impl View for ServerState {
    type V = ServerView;

    closed spec fn view(&self) -> ServerView {
        ServerView {
            next_game_id: self.next_game_id,
            games_response_json: contents(self.games_response_json),
            games_dir: self.games_dir@,
            configs: self.configs_by_id@.map_values(|config: GameConfig| config@),
        }
    }
}

/// The games of a catalogue by their ids. Of games with the same id, the last one
/// counts.
pub open spec fn by_id(configs: Seq<Listed>) -> Map<Seq<char>, GameConfigView>
    decreases configs.len(),
{
    if configs.len() == 0 {
        Map::empty()
    } else {
        by_id(configs.drop_last()).insert(configs.last().0, configs.last().1)
    }
}

/// The id after `id`. It starts again at zero when there are no more.
pub open spec fn id_after(id: usize) -> usize {
    if id == usize::MAX {
        0
    } else {
        (id + 1) as usize
    }
}

/// The answer to a request for the list of games: success, with this content.
#[derive(Debug)]
pub struct GamesReply {
    pub content_type: &'static str,
    pub body: Bytes,
}

/// The answer to a request for a game.
#[derive(Debug)]
pub enum PlayReply<P> {
    /// Play this game over a websocket.
    Start(GameActor<P>),
    /// There is no such game.
    NotFound,
}

/// What is to be started when a game is.
#[verifier::ext_equal]
pub struct StartView {
    pub id: usize,
    pub game_dir: Seq<char>,
    pub config: GameConfigView,
}

impl<P> View for PlayReply<P> {
    type V = Option<StartView>;

    /// The game that is to be started, if any.
    open spec fn view(&self) -> Option<StartView> {
        match *self {
            PlayReply::Start(actor) => Some(
                StartView {
                    id: actor.id,
                    game_dir: actor.game_dir@,
                    config: actor.config@,
                },
            ),
            PlayReply::NotFound => None,
        }
    }
}

/// What a server holds after a request for the game `gameid`, and what is to be
/// started: the game of that id, in the directory `game_dir`, under the next id. A
/// request for an unknown game changes nothing.
pub open spec fn play_outcome(server: ServerView, gameid: Seq<char>, game_dir: Seq<char>) -> (
    ServerView,
    Option<StartView>,
) {
    if server.configs.contains_key(gameid) {
        (
            ServerView { next_game_id: id_after(server.next_game_id), ..server },
            Some(
                StartView {
                    id: server.next_game_id,
                    game_dir,
                    config: server.configs[gameid],
                },
            ),
        )
    } else {
        (server, None)
    }
}

/// The list of the games in a catalogue, as it is served.
pub fn games_response_json(configs: &Vec<(String, GameConfig)>) -> (json: Result<Bytes, Error>)
    ensures
        json is Ok,
        contents(json->Ok_0) == json_pretty(games_json(games_response(config_views(configs@)))),
        exists|items: Seq<Value>| #[trigger]
            is_list_of(items, configs@) && contents(json->Ok_0) == json_pretty(
                json_object(seq![("games"@, json_array(items))]),
            ),
{
    match to_games_json(configs) {
        Ok(printed) => Ok(buffer::from_vec(printed)),
        Err(error) => Err(error),
    }
}

impl ServerState {
    /// A server that serves `games_response_json` as its list of games, and has
    /// the games in `configs` to play, which are in the directory `games_dir`.
    pub fn new(
        games_response_json: &Bytes,
        games_dir: &str,
        configs: &Vec<(String, GameConfig)>,
    ) -> (state: ServerState)
        ensures
            state@ == (ServerView {
                next_game_id: 0,
                games_response_json: contents(*games_response_json),
                games_dir: games_dir@,
                configs: by_id(config_views(configs@)),
            }),
            state@.next_game_id == 0,
            state@.games_response_json == contents(*games_response_json),
            state@.games_dir == games_dir@,
            forall|id: Seq<char>| #[trigger]
                state@.configs.contains_key(id) <==> exists|i: int|
                    0 <= i < configs@.len() && (#[trigger] configs@[i]).0@ == id,
            forall|i: int|
                0 <= i < configs@.len() && (forall|j: int|
                    i < j < configs@.len() ==> (#[trigger] configs@[j]).0@ != configs@[i].0@)
                    ==> state@.configs[(#[trigger] configs@[i]).0@] == configs@[i].1@,
    {
        let mut configs_by_id: StringHashMap<GameConfig> = StringHashMap::new();
        let ghost listed = config_views(configs@);
        let ghost values = |config: GameConfig| config@;
        assert(configs_by_id@.map_values(values) =~= by_id(listed.take(0)));
        for i in 0..configs.len()
            invariant
                listed == config_views(configs@),
                values == (|config: GameConfig| config@),
                configs_by_id@.map_values(values) == by_id(listed.take(i as int)),
        {
            let ghost before = configs_by_id@;
            let id = configs[i].0.clone();
            let config = configs[i].1.clone();
            configs_by_id.insert(id, config);
            proof {
                let taken = listed.take(i + 1);
                assert(taken.drop_last() =~= listed.take(i as int));
                assert(taken.last() == (configs@[i as int].0@, configs@[i as int].1@));
                assert(before.insert(id@, config).map_values(values) =~= before.map_values(
                    values,
                ).insert(id@, config@));
            }
        }
        assert(listed.take(configs.len() as int) =~= listed);
        proof {
            lemma_by_id_of(configs@);
        }
        ServerState {
            next_game_id: 0,
            games_response_json: buffer::share(games_response_json),
            games_dir: games_dir.to_owned(),
            configs_by_id,
        }
    }

    /// Answers a request for the list of games.
    pub fn games(&self) -> (reply: GamesReply)
        ensures
            reply.content_type@ == "application/json"@,
            contents(reply.body) == self@.games_response_json,
    {
        GamesReply {
            content_type: "application/json",
            body: buffer::share(&self.games_response_json),
        }
    }

    /// Answers a request for the game `gameid`, whose directory is `game_dir`.
    pub fn play_in<P>(&mut self, gameid: &str, game_dir: String) -> (reply: PlayReply<P>)
        ensures
            (final(self)@, reply@) == play_outcome(old(self)@, gameid@, game_dir@),
            reply matches PlayReply::Start(actor) ==> actor.process_st == ProcessSt::<P>::Booting,
            old(self)@.configs.contains_key(gameid@) ==> {
                &&& reply matches PlayReply::Start(actor)
                &&& actor.id == old(self)@.next_game_id
                &&& actor.game_dir@ == game_dir@
                &&& actor.config@ == old(self)@.configs[gameid@]
                &&& old(self)@.next_game_id < usize::MAX ==> final(self)@.next_game_id
                    == old(self)@.next_game_id + 1
                &&& old(self)@.next_game_id == usize::MAX ==> final(self)@.next_game_id == 0
            },
            !old(self)@.configs.contains_key(gameid@) ==> reply is NotFound
                && final(self)@.next_game_id == old(self)@.next_game_id,
            final(self)@.configs == old(self)@.configs,
            final(self)@.games_dir == old(self)@.games_dir,
            final(self)@.games_response_json == old(self)@.games_response_json,
    {
        match self.configs_by_id.get(gameid) {
            Some(config) => {
                let config = config.clone();
                let game_id: usize = self.next_game_id;
                self.next_game_id = if game_id == usize::MAX {
                    0
                } else {
                    game_id + 1
                };
                PlayReply::Start(GameActor::new(game_id, game_dir, config))
            },
            None => PlayReply::NotFound,
        }
    }

    /// Answers a request for the game `gameid`. Its directory is the one of that
    /// name in the games directory.
    pub fn play<P>(&mut self, gameid: &str) -> (reply: PlayReply<P>)
        ensures
            exists|game_dir: Seq<char>| #[trigger]
                is_joined(old(self)@.games_dir, gameid@, game_dir) && is_join_result(
                    old(self)@.games_dir,
                    gameid@,
                    game_dir,
                ) && (final(self)@, reply@) == play_outcome(old(self)@, gameid@, game_dir),
            reply matches PlayReply::Start(actor) ==> actor.process_st == ProcessSt::<P>::Booting,
            old(self)@.configs.contains_key(gameid@) ==> {
                &&& reply matches PlayReply::Start(actor)
                &&& actor.id == old(self)@.next_game_id
                &&& is_join_result(old(self)@.games_dir, gameid@, actor.game_dir@)
                &&& actor.config@ == old(self)@.configs[gameid@]
                &&& old(self)@.next_game_id < usize::MAX ==> final(self)@.next_game_id
                    == old(self)@.next_game_id + 1
                &&& old(self)@.next_game_id == usize::MAX ==> final(self)@.next_game_id == 0
            },
            !old(self)@.configs.contains_key(gameid@) ==> reply is NotFound
                && final(self)@.next_game_id == old(self)@.next_game_id,
            final(self)@.configs == old(self)@.configs,
            final(self)@.games_dir == old(self)@.games_dir,
            final(self)@.games_response_json == old(self)@.games_response_json,
    {
        let game_dir = path_below(self.games_dir.as_str(), gameid);
        self.play_in(gameid, game_dir)
    }
}

/// Whether the game at `i` in the catalogue is the last one with the id `id`, and
/// has the configuration `config`.
pub open spec fn is_last_of(
    configs: Seq<Listed>,
    i: int,
    id: Seq<char>,
    config: GameConfigView,
) -> bool {
    &&& 0 <= i < configs.len()
    &&& configs[i] == (id, config)
    &&& forall|j: int| i < j < configs.len() ==> (#[trigger] configs[j]).0 != id
}

/// Whether `config` is what the catalogue last says of the game `id`.
pub open spec fn is_last_said(configs: Seq<Listed>, id: Seq<char>, config: GameConfigView) -> bool {
    exists|i: int| #[trigger] is_last_of(configs, i, id, config)
}

/// What [`by_id`] holds: every id of the catalogue, with what is last said of it.
proof fn lemma_by_id(configs: Seq<Listed>, id: Seq<char>)
    ensures
        by_id(configs).contains_key(id) <==> exists|i: int|
            0 <= i < configs.len() && (#[trigger] configs[i]).0 == id,
        by_id(configs).contains_key(id) ==> is_last_said(configs, id, by_id(configs)[id]),
    decreases configs.len(),
{
    if configs.len() > 0 {
        let before = configs.drop_last();
        let end = configs.len() - 1;
        lemma_by_id(before, id);
        if configs.last().0 == id {
            assert(configs[end].0 == id);
            assert(is_last_of(configs, end, id, by_id(configs)[id]));
        } else {
            if by_id(before).contains_key(id) {
                let i = choose|i: int| #[trigger]
                    is_last_of(before, i, id, by_id(before)[id]);
                assert(configs[i] == before[i]);
                assert forall|j: int| i < j < configs.len() implies (#[trigger] configs[j]).0
                    != id by {
                    if j < end {
                        assert(before[j] == configs[j]);
                    }
                }
                assert(is_last_of(configs, i, id, by_id(configs)[id]));
            }
            if exists|i: int| 0 <= i < configs.len() && (#[trigger] configs[i]).0 == id {
                let i = choose|i: int| 0 <= i < configs.len() && (#[trigger] configs[i]).0 == id;
                assert(before[i] == configs[i]);
            }
        }
    }
}

/// What is listed is what can be played. A request starts a game exactly when its
/// id is in the list of games, and the game is then run as the catalogue last says
/// of that id.
pub proof fn law_listed_games_can_be_played(
    configs: Seq<Listed>,
    server: ServerView,
    id: Seq<char>,
    game_dir: Seq<char>,
)
    requires
        server.configs == by_id(configs),
    ensures
        play_outcome(server, id, game_dir).1 is Some <==> exists|i: int|
            0 <= i < games_response(configs).len() && (#[trigger] games_response(configs)[i]).id
                == id,
        play_outcome(server, id, game_dir).1 matches Some(start) ==> is_last_said(
            configs,
            id,
            start.config,
        ),
{
    lemma_by_id(configs, id);
    let list = games_response(configs);
    if exists|i: int| 0 <= i < configs.len() && (#[trigger] configs[i]).0 == id {
        let i = choose|i: int| 0 <= i < configs.len() && (#[trigger] configs[i]).0 == id;
        assert(list[i].id == id);
    }
    if exists|i: int| 0 <= i < list.len() && (#[trigger] list[i]).id == id {
        let i = choose|i: int| 0 <= i < list.len() && (#[trigger] list[i]).id == id;
        assert(configs[i].0 == id);
    }
}

/// Where no two games of a catalogue share an id, each game is played as it is
/// listed.
pub proof fn law_each_listed_game_is_the_one_played(
    configs: Seq<Listed>,
    server: ServerView,
    i: int,
    game_dir: Seq<char>,
)
    requires
        server.configs == by_id(configs),
        forall|j: int, k: int|
            0 <= j < k < configs.len() ==> (#[trigger] configs[j]).0 != (#[trigger] configs[k]).0,
        0 <= i < configs.len(),
    ensures
        play_outcome(server, games_response(configs)[i].id, game_dir).1 == Some(
            StartView {
                id: server.next_game_id,
                game_dir,
                config: configs[i].1,
            },
        ),
{
    let id = configs[i].0;
    lemma_by_id(configs, id);
    let k = choose|k: int| #[trigger] is_last_of(configs, k, id, by_id(configs)[id]);
    assert(configs[k].0 == configs[i].0);
}

/// Whether the directory of the game `id`, configured as `config`, is among these
/// entries.
pub open spec fn has_game_directory<E>(
    entries: Seq<Result<EntryFacts<E>, E>>,
    id: Seq<char>,
    config: GameConfigView,
) -> bool {
    exists|i: int| 0 <= i < entries.len() && is_game_directory(#[trigger] entries[i], (id, config))
}

/// A server that has loaded a games directory lets players play exactly what is a
/// game directory in it, each as its own configuration file says.
pub proof fn law_game_directories_can_be_played<E>(
    entries: Seq<Result<EntryFacts<E>, E>>,
    configs: Seq<Listed>,
    server: ServerView,
    id: Seq<char>,
    game_dir: Seq<char>,
)
    requires
        load_outcome(Seq::empty(), entries) == ActionView::<E>::Finish(configs),
        server.configs == by_id(configs),
    ensures
        play_outcome(server, id, game_dir).1 is Some <==> exists|config: GameConfigView| #[trigger]
            has_game_directory(entries, id, config),
        play_outcome(server, id, game_dir).1 matches Some(start) ==> has_game_directory(
            entries,
            id,
            start.config,
        ),
{
    law_loading_keeps_all_games(Seq::empty(), entries);
    assert(Seq::<Listed>::empty() + games_among(entries) =~= games_among(entries));
    lemma_by_id(configs, id);
    if server.configs.contains_key(id) {
        let config = server.configs[id];
        let i = choose|i: int| #[trigger] is_last_of(configs, i, id, config);
        assert(configs[i] == (id, config));
        law_games_are_game_directories(entries, (id, config));
        assert(has_game_directory(entries, id, config));
    }
    if exists|config: GameConfigView| #[trigger] has_game_directory(entries, id, config) {
        let config = choose|config: GameConfigView| #[trigger]
            has_game_directory(entries, id, config);
        law_games_are_game_directories(entries, (id, config));
        let i = choose|i: int| 0 <= i < configs.len() && configs[i] == (id, config);
        assert(configs[i].0 == id);
    }
}

/// A server that has loaded a directory, whose entries all have different names,
/// lets players play each game as it is listed.
pub proof fn law_loaded_games_are_played_as_listed<E>(
    entries: Seq<Result<EntryFacts<E>, E>>,
    configs: Seq<Listed>,
    server: ServerView,
    i: int,
    game_dir: Seq<char>,
)
    requires
        names_differ(entries),
        load_outcome(Seq::empty(), entries) == ActionView::<E>::Finish(configs),
        server.configs == by_id(configs),
        0 <= i < configs.len(),
    ensures
        play_outcome(server, games_response(configs)[i].id, game_dir).1 == Some(
            StartView { id: server.next_game_id, game_dir, config: configs[i].1 },
        ),
{
    law_loading_keeps_all_games(Seq::empty(), entries);
    assert(Seq::<Listed>::empty() + games_among(entries) =~= games_among(entries));
    assert forall|j: int, k: int| 0 <= j < k < configs.len() implies (#[trigger] configs[j]).0 != (
    #[trigger] configs[k]).0 by {
        law_game_ids_are_distinct(entries, j, k);
    }
    law_each_listed_game_is_the_one_played(configs, server, i, game_dir);
}

/// A request: the id of a game and the directory of that name.
pub type Request = (Seq<char>, Seq<char>);

/// What a server holds after these requests.
pub open spec fn server_after(server: ServerView, requests: Seq<Request>) -> ServerView
    decreases requests.len(),
{
    if requests.len() == 0 {
        server
    } else {
        play_outcome(
            server_after(server, requests.drop_last()),
            requests.last().0,
            requests.last().1,
        ).0
    }
}

/// How many of these requests start a game.
pub open spec fn started_count(server: ServerView, requests: Seq<Request>) -> nat
    decreases requests.len(),
{
    if requests.len() == 0 {
        0
    } else if server.configs.contains_key(requests.last().0) {
        started_count(server, requests.drop_last()) + 1
    } else {
        started_count(server, requests.drop_last())
    }
}

/// The id that is `n` ids after `first`. After the largest one comes zero.
pub open spec fn nth_id(first: usize, n: nat) -> int {
    (first + n) % (usize::MAX + 1)
}

/// A server numbers the games that it starts in order: each gets the id that comes
/// as many ids after the first as games were started before it. Requests for
/// unknown games use up none, and requests change nothing else that the server
/// holds.
pub proof fn law_game_ids_count_up(server: ServerView, requests: Seq<Request>, next: Request)
    ensures
        server_after(server, requests) == (ServerView {
            next_game_id: server_after(server, requests).next_game_id,
            ..server
        }),
        server_after(server, requests).next_game_id == nth_id(
            server.next_game_id,
            started_count(server, requests),
        ),
        play_outcome(server_after(server, requests), next.0, next.1).1 is Some
            <==> server.configs.contains_key(next.0),
        play_outcome(server_after(server, requests), next.0, next.1).1 matches Some(start) ==> start.id
            == nth_id(server.next_game_id, started_count(server, requests)),
        play_outcome(server_after(server, requests), next.0, next.1).1 matches Some(start) ==> start.id
            == (server.next_game_id + started_count(server, requests)) % (usize::MAX + 1),
    decreases requests.len(),
{
    let ids = usize::MAX + 1;
    if requests.len() == 0 {
        lemma_small_mod(server.next_game_id as nat, ids as nat);
    } else {
        let before = requests.drop_last();
        law_game_ids_count_up(server, before, next);
        let passed = server.next_game_id + started_count(server, before);
        let id = server_after(server, before).next_game_id;
        assert(id_after(id) == (passed + 1) % ids) by {
            lemma_add_mod_noop(passed, 1, ids);
            lemma_small_mod(1, ids as nat);
            if id == usize::MAX {
                lemma_mod_self_0(ids);
            } else {
                lemma_small_mod((id + 1) as nat, ids as nat);
            }
        }
    }
}

proof fn lemma_count_grows(server: ServerView, requests: Seq<Request>, i: int, j: int)
    requires
        0 <= i < j <= requests.len(),
        server.configs.contains_key(requests[i].0),
    ensures
        started_count(server, requests.take(i)) < started_count(server, requests.take(j))
            <= started_count(server, requests.take(i)) + (j - i),
    decreases j,
{
    assert(requests.take(j).drop_last() =~= requests.take(j - 1));
    if j > i + 1 {
        lemma_count_grows(server, requests, i, j - 1);
    }
}

/// Two games that a server starts have different ids, unless as many requests as
/// there are ids came between them.
pub proof fn law_game_ids_differ(
    server: ServerView,
    requests: Seq<Request>,
    i: int,
    j: int,
)
    requires
        0 <= i < j < requests.len(),
        j - i <= usize::MAX,
    ensures
        play_outcome(
            server_after(server, requests.take(i)),
            requests[i].0,
            requests[i].1,
        ).1 matches Some(first) ==> play_outcome(
            server_after(server, requests.take(j)),
            requests[j].0,
            requests[j].1,
        ).1 matches Some(second) ==> first.id != second.id,
{
    let ids = usize::MAX + 1;
    law_game_ids_count_up(server, requests.take(i), requests[i]);
    law_game_ids_count_up(server, requests.take(j), requests[j]);
    if server.configs.contains_key(requests[i].0) {
        lemma_count_grows(server, requests, i, j);
        let earlier = server.next_game_id + started_count(server, requests.take(i));
        let later = server.next_game_id + started_count(server, requests.take(j));
        lemma_mod_equivalence(later, earlier, ids);
        lemma_small_mod((later - earlier) as nat, ids as nat);
    }
}

/// What [`by_id`] makes of a catalogue, said of the catalogue itself.
proof fn lemma_by_id_of(configs: Seq<(String, GameConfig)>)
    ensures
        forall|id: Seq<char>| #[trigger]
            by_id(config_views(configs)).contains_key(id) <==> exists|i: int|
                0 <= i < configs.len() && (#[trigger] configs[i]).0@ == id,
        forall|i: int|
            0 <= i < configs.len() && (forall|j: int|
                i < j < configs.len() ==> (#[trigger] configs[j]).0@ != configs[i].0@) ==> by_id(
                config_views(configs),
            )[(#[trigger] configs[i]).0@] == configs[i].1@,
{
    let listed = config_views(configs);
    assert forall|id: Seq<char>| #[trigger]
        by_id(listed).contains_key(id) <==> exists|i: int|
            0 <= i < configs.len() && (#[trigger] configs[i]).0@ == id by {
        lemma_by_id(listed, id);
        if exists|i: int| 0 <= i < configs.len() && (#[trigger] configs[i]).0@ == id {
            let i = choose|i: int| 0 <= i < configs.len() && (#[trigger] configs[i]).0@ == id;
            assert(listed[i].0 == id);
        }
        if by_id(listed).contains_key(id) {
            let i = choose|i: int| 0 <= i < listed.len() && (#[trigger] listed[i]).0 == id;
            assert(configs[i].0@ == id);
        }
    }
    assert forall|i: int|
        0 <= i < configs.len() && (forall|j: int|
            i < j < configs.len() ==> (#[trigger] configs[j]).0@
                != configs[i].0@) implies by_id(listed)[(#[trigger] configs[i]).0@]
        == configs[i].1@ by {
        let id = configs[i].0@;
        assert(listed[i].0 == id);
        lemma_by_id(listed, id);
        let k = choose|k: int| #[trigger] is_last_of(listed, k, id, by_id(listed)[id]);
        assert(configs[k].0@ == id);
    }
}

/// A request for a known game starts that game, and no other: under the next id, in
/// the directory that was found for it, and as its configuration says. The id after it
/// is one more, and zero after the largest. A request for an unknown game starts
/// nothing and uses up no id. No request changes the games, their directory or the
/// list.
pub proof fn law_request_starts_the_game_asked_for(
    server: ServerView,
    gameid: Seq<char>,
    game_dir: Seq<char>,
)
    ensures
        server.configs.contains_key(gameid) ==> {
            &&& play_outcome(server, gameid, game_dir).1 matches Some(start)
            &&& start.id == server.next_game_id
            &&& start.game_dir == game_dir
            &&& start.config == server.configs[gameid]
            &&& server.next_game_id < usize::MAX ==> play_outcome(
                server,
                gameid,
                game_dir,
            ).0.next_game_id == server.next_game_id + 1
            &&& server.next_game_id == usize::MAX ==> play_outcome(
                server,
                gameid,
                game_dir,
            ).0.next_game_id == 0
        },
        !server.configs.contains_key(gameid) ==> play_outcome(server, gameid, game_dir).1 is None
            && play_outcome(server, gameid, game_dir).0.next_game_id == server.next_game_id,
        play_outcome(server, gameid, game_dir).0.configs == server.configs,
        play_outcome(server, gameid, game_dir).0.games_dir == server.games_dir,
        play_outcome(server, gameid, game_dir).0.games_response_json == server.games_response_json,
{
}

/// A game runs in its own directory below the games directory: the path is the games
/// directory in full, at most one separator, and the game's id in full. Where the
/// games directory ends in `/` it is simply followed by the id, and where it ends in
/// neither separator, one of the two stands between.
pub proof fn law_game_runs_below_the_games_directory(
    server: ServerView,
    gameid: Seq<char>,
    game_dir: Seq<char>,
)
    requires
        is_joined(server.games_dir, gameid, game_dir),
        gameid.len() > 0 ==> gameid[0] != '/' && gameid[0] != '\\',
        gameid.len() >= 2 ==> gameid[1] != ':',
        server.games_dir.len() > 0 ==> server.games_dir[0] != '\\',
    ensures
        play_outcome(server, gameid, game_dir).1 matches Some(start) ==> {
            &&& start.game_dir.take(server.games_dir.len() as int) == server.games_dir
            &&& start.game_dir.skip(start.game_dir.len() - gameid.len()) == gameid
            &&& server.games_dir.len() + gameid.len() <= start.game_dir.len()
                <= server.games_dir.len() + gameid.len() + 1
            &&& server.games_dir.len() > 0 && server.games_dir.last() == '/' ==> start.game_dir
                == server.games_dir + gameid
            &&& server.games_dir.len() > 2 && server.games_dir.last() != '/'
                && server.games_dir.last() != '\\' ==> {
                ||| start.game_dir == server.games_dir + seq!['/'] + gameid
                ||| start.game_dir == server.games_dir + seq!['\\'] + gameid
            }
        },
{
    law_joined_path_is_root_then_name(server.games_dir, gameid, game_dir);
}

/// What a catalogue says of a game is what is looked up: every id in it is known, no
/// other is, and the last game with an id is the one that is found under it.
pub proof fn law_catalogue_is_looked_up_by_id(configs: Seq<Listed>, id: Seq<char>, i: int)
    ensures
        by_id(configs).contains_key(id) <==> exists|k: int|
            0 <= k < configs.len() && (#[trigger] configs[k]).0 == id,
        0 <= i < configs.len() && configs[i].0 == id && (forall|j: int|
            i < j < configs.len() ==> (#[trigger] configs[j]).0 != id) ==> by_id(configs)[id]
            == configs[i].1,
{
    lemma_by_id(configs, id);
    if 0 <= i < configs.len() && configs[i].0 == id && (forall|j: int|
        i < j < configs.len() ==> (#[trigger] configs[j]).0 != id) {
        let k = choose|k: int| #[trigger] is_last_of(configs, k, id, by_id(configs)[id]);
        assert(configs[k].0 == id);
    }
}

/// The value that stands for a reply tells everything of the game that is started.
pub proof fn law_reply_tells_of_the_game<P>(reply: PlayReply<P>)
    ensures
        match reply {
            PlayReply::Start(actor) => reply@ matches Some(start) && start.id == actor.id
                && start.game_dir == actor.game_dir@ && start.config == actor.config@,
            PlayReply::NotFound => reply@ is None,
        },
{
}

} // verus!
