//! Reading the games directory: which entries are looked at, which become games,
//! and what stops the reading.
//!
//! A [`Scan`] decides and the caller looks. The caller performs the
//! [`ScanAction`] it is given and reports back with a [`ScanEvent`], until the
//! scan finishes, refuses or gives up.
use crate::catalog::{config_views, GameConfig, GameConfigView, Listed};
use crate::failure::{failure_about, ErrorKind, Failure, FailureView};
use crate::paths::{
    final_component, is_ignored_name, is_portable, is_system_verdict, is_verdict_on, should_ignore,
    verdict_view,
};
use vstd::prelude::*;

verus! {

/// The file in a game's directory that configures it.
pub const CONFIG_FILE_NAME: &'static str = "textadventure.toml";

/// What the caller is to do next. `E` is an error of the caller's.
pub enum ScanAction<E> {
    /// Read the next entry of the games directory.
    NextEntry,
    /// Look whether the entry is a directory.
    CheckDirectory,
    /// Look whether the entry holds a file named [`CONFIG_FILE_NAME`].
    CheckConfigFile,
    /// Read that file.
    LoadConfig,
    /// Stop: these are the games.
    Finish(Vec<(String, GameConfig)>),
    /// Stop: the directory holds what it may not hold.
    Refuse(Failure),
    /// Stop: looking failed.
    GiveUp(E),
}

/// What the caller found.
pub enum ScanEvent<E> {
    /// An entry, by its name, and whether it is to be ignored.
    Entry { id: String, ignored: Result<bool, Failure> },
    /// An entry whose name is not text, as the `Debug` of it prints.
    BadName(String),
    /// Whether the entry is a directory.
    IsDirectory(bool),
    /// Whether the entry holds a configuration file.
    HasConfigFile(bool),
    /// The configuration.
    Config(GameConfig),
    /// There are no more entries.
    End,
    /// Looking failed.
    Failed(E),
}

/// How far a scan is. The texts are the id of the entry that is being looked at.
#[derive(Debug)]
pub enum ScanStage {
    Listing,
    Checking(String),
    Probing(String),
    Loading(String),
    Closed,
}

/// A reading of the games directory.
#[derive(Debug)]
pub struct Scan {
    pub stage: ScanStage,
    pub configs: Vec<(String, GameConfig)>,
}

/// What a [`ScanAction`] says.
pub ghost enum ActionView<E> {
    NextEntry,
    CheckDirectory,
    CheckConfigFile,
    LoadConfig,
    Finish(Seq<Listed>),
    Refuse(FailureView),
    GiveUp(E),
}

/// What a [`ScanEvent`] says.
pub ghost enum EventView<E> {
    Entry { id: Seq<char>, ignored: Result<bool, FailureView> },
    BadName(Seq<char>),
    IsDirectory(bool),
    HasConfigFile(bool),
    Config(GameConfigView),
    End,
    Failed(E),
}

/// What a [`ScanStage`] says.
pub ghost enum StageView {
    Listing,
    Checking(Seq<char>),
    Probing(Seq<char>),
    Loading(Seq<char>),
    Closed,
}

/// What a [`Scan`] holds: its stage and the games found so far.
#[verifier::ext_equal]
pub ghost struct ScanView {
    pub stage: StageView,
    pub configs: Seq<Listed>,
}

impl<E> View for ScanAction<E> {
    type V = ActionView<E>;

    open spec fn view(&self) -> ActionView<E> {
        match *self {
            ScanAction::NextEntry => ActionView::NextEntry,
            ScanAction::CheckDirectory => ActionView::CheckDirectory,
            ScanAction::CheckConfigFile => ActionView::CheckConfigFile,
            ScanAction::LoadConfig => ActionView::LoadConfig,
            ScanAction::Finish(configs) => ActionView::Finish(config_views(configs@)),
            ScanAction::Refuse(failure) => ActionView::Refuse(failure@),
            ScanAction::GiveUp(error) => ActionView::GiveUp(error),
        }
    }
}

impl<E> View for ScanEvent<E> {
    type V = EventView<E>;

    open spec fn view(&self) -> EventView<E> {
        match *self {
            ScanEvent::Entry { id, ignored } => EventView::Entry {
                id: id@,
                ignored: verdict_view(ignored),
            },
            ScanEvent::BadName(quoted) => EventView::BadName(quoted@),
            ScanEvent::IsDirectory(yes) => EventView::IsDirectory(yes),
            ScanEvent::HasConfigFile(yes) => EventView::HasConfigFile(yes),
            ScanEvent::Config(config) => EventView::Config(config@),
            ScanEvent::End => EventView::End,
            ScanEvent::Failed(error) => EventView::Failed(error),
        }
    }
}

impl View for ScanStage {
    type V = StageView;

    open spec fn view(&self) -> StageView {
        match *self {
            ScanStage::Listing => StageView::Listing,
            ScanStage::Checking(id) => StageView::Checking(id@),
            ScanStage::Probing(id) => StageView::Probing(id@),
            ScanStage::Loading(id) => StageView::Loading(id@),
            ScanStage::Closed => StageView::Closed,
        }
    }
}

impl View for Scan {
    type V = ScanView;

    open spec fn view(&self) -> ScanView {
        ScanView { stage: self.stage@, configs: config_views(self.configs@) }
    }
}

/// Whether `event` answers the question that is open in `stage`.
pub open spec fn answers<E>(stage: StageView, event: EventView<E>) -> bool {
    match stage {
        StageView::Listing => event is Entry || event is BadName || event is End
            || event is Failed,
        StageView::Checking(_) => event is IsDirectory || event is Failed,
        StageView::Probing(_) => event is HasConfigFile,
        StageView::Loading(_) => event is Config || event is Failed,
        StageView::Closed => false,
    }
}

/// What becomes of a scan on an event, and what the caller is to do next.
pub open spec fn scan_step<E>(scan: ScanView, event: EventView<E>) -> (ScanView, ActionView<E>) {
    let closed = ScanView { stage: StageView::Closed, ..scan };
    let listing = ScanView { stage: StageView::Listing, ..scan };
    match (scan.stage, event) {
        (StageView::Listing, EventView::Entry { id, ignored: Ok(true) }) => (
            listing,
            ActionView::NextEntry,
        ),
        (StageView::Listing, EventView::Entry { id, ignored: Ok(false) }) => (
            ScanView { stage: StageView::Checking(id), ..scan },
            ActionView::CheckDirectory,
        ),
        (StageView::Listing, EventView::Entry { id, ignored: Err(failure) }) => (
            closed,
            ActionView::Refuse(failure),
        ),
        (StageView::Listing, EventView::BadName(quoted)) => (
            closed,
            ActionView::Refuse(
                failure_about(ErrorKind::InvalidInput, quoted, ": not a valid number"@),
            ),
        ),
        (StageView::Listing, EventView::End) => (
            ScanView { stage: StageView::Closed, configs: Seq::empty() },
            ActionView::Finish(scan.configs),
        ),
        (StageView::Checking(id), EventView::IsDirectory(yes)) => if yes {
            (ScanView { stage: StageView::Probing(id), ..scan }, ActionView::CheckConfigFile)
        } else {
            (listing, ActionView::NextEntry)
        },
        (StageView::Probing(id), EventView::HasConfigFile(yes)) => if yes {
            (ScanView { stage: StageView::Loading(id), ..scan }, ActionView::LoadConfig)
        } else {
            (listing, ActionView::NextEntry)
        },
        (StageView::Loading(id), EventView::Config(config)) => (
            ScanView { stage: StageView::Listing, configs: scan.configs.push((id, config)) },
            ActionView::NextEntry,
        ),
        (_, EventView::Failed(error)) => (closed, ActionView::GiveUp(error)),
        _ => (scan, ActionView::NextEntry),
    }
}

/// What is said of a games directory that is missing or is no directory.
pub open spec fn directory_failure(
    games_dir: Seq<char>,
    exists: bool,
    is_dir: bool,
) -> Option<FailureView> {
    if !exists {
        Some(failure_about(ErrorKind::NotFound, games_dir, ": no such file or directory"@))
    } else if !is_dir {
        Some(failure_about(ErrorKind::InvalidInput, games_dir, ": not a directory"@))
    } else {
        None
    }
}

impl Scan {
    /// Starts a scan of the directory `games_dir`, of which the caller knows
    /// whether it exists and whether it is a directory. The first thing to do is
    /// to read an entry.
    pub fn open(games_dir: &str, exists: bool, is_dir: bool) -> (scan: Result<Scan, Failure>)
        ensures
            match scan {
                Ok(scan) => directory_failure(games_dir@, exists, is_dir) is None && scan@
                    == (ScanView { stage: StageView::Listing, configs: Seq::empty() }),
                Err(failure) => directory_failure(games_dir@, exists, is_dir) == Some(failure@),
            },
            !exists ==> (scan matches Err(failure) && failure.kind == ErrorKind::NotFound
                && failure.message@ == games_dir@ + ": no such file or directory"@),
            exists && !is_dir ==> (scan matches Err(failure) && failure.kind
                == ErrorKind::InvalidInput && failure.message@ == games_dir@
                + ": not a directory"@),
            exists && is_dir ==> (scan matches Ok(opened) && opened.stage is Listing
                && opened.configs@.len() == 0),
    {
        if !exists {
            return Err(
                Failure::about(ErrorKind::NotFound, games_dir, ": no such file or directory"),
            );
        }
        if !is_dir {
            return Err(Failure::about(ErrorKind::InvalidInput, games_dir, ": not a directory"));
        }
        let scan = Scan { stage: ScanStage::Listing, configs: Vec::new() };
        assert(config_views(scan.configs@) =~= Seq::empty());
        Ok(scan)
    }

    /// Takes in what the caller found and says what to do next.
    pub fn step<E>(&mut self, event: ScanEvent<E>) -> (action: ScanAction<E>)
        requires
            answers(old(self)@.stage, event@),
        ensures
            (final(self)@, action@) == scan_step(old(self)@, event@),
            match event {
                ScanEvent::Entry { id, ignored } => match ignored {
                    Ok(true) => action is NextEntry && final(self).stage is Listing,
                    Ok(false) => action is CheckDirectory && final(self).stage
                        == ScanStage::Checking(id),
                    Err(failure) => action == ScanAction::<E>::Refuse(failure),
                },
                ScanEvent::BadName(quoted) => action matches ScanAction::Refuse(failure)
                    && failure.kind == ErrorKind::InvalidInput && failure.message@ == quoted@
                    + ": not a valid number"@,
                ScanEvent::IsDirectory(yes) => if yes {
                    &&& action is CheckConfigFile
                    &&& old(self).stage matches ScanStage::Checking(id)
                    &&& final(self).stage == ScanStage::Probing(id)
                } else {
                    action is NextEntry && final(self).stage is Listing
                },
                ScanEvent::HasConfigFile(yes) => if yes {
                    &&& action is LoadConfig
                    &&& old(self).stage matches ScanStage::Probing(id)
                    &&& final(self).stage == ScanStage::Loading(id)
                } else {
                    action is NextEntry && final(self).stage is Listing
                },
                ScanEvent::Config(config) => {
                    &&& action is NextEntry
                    &&& final(self).stage is Listing
                    &&& old(self).stage matches ScanStage::Loading(id)
                    &&& final(self).configs@ == old(self).configs@.push((id, config))
                },
                ScanEvent::End => action matches ScanAction::Finish(configs) && configs@
                    == old(self).configs@,
                ScanEvent::Failed(error) => action == ScanAction::<E>::GiveUp(error),
            },
            !(event is Config) && !(event is End) ==> final(self).configs@ == old(self).configs@,
    {
        let mut stage = ScanStage::Closed;
        std::mem::swap(&mut stage, &mut self.stage);
        match event {
            ScanEvent::Failed(error) => ScanAction::GiveUp(error),
            ScanEvent::BadName(quoted) => ScanAction::Refuse(
                Failure::about(ErrorKind::InvalidInput, quoted.as_str(), ": not a valid number"),
            ),
            ScanEvent::Entry { id, ignored } => match ignored {
                Ok(true) => {
                    self.stage = ScanStage::Listing;
                    ScanAction::NextEntry
                },
                Ok(false) => {
                    self.stage = ScanStage::Checking(id);
                    ScanAction::CheckDirectory
                },
                Err(failure) => ScanAction::Refuse(failure),
            },
            ScanEvent::End => {
                let mut configs: Vec<(String, GameConfig)> = Vec::new();
                std::mem::swap(&mut configs, &mut self.configs);
                assert(config_views(self.configs@) =~= Seq::empty());
                ScanAction::Finish(configs)
            },
            ScanEvent::IsDirectory(yes) => {
                if let ScanStage::Checking(id) = stage {
                    if yes {
                        self.stage = ScanStage::Probing(id);
                        return ScanAction::CheckConfigFile;
                    }
                }
                self.stage = ScanStage::Listing;
                ScanAction::NextEntry
            },
            ScanEvent::HasConfigFile(yes) => {
                if let ScanStage::Probing(id) = stage {
                    if yes {
                        self.stage = ScanStage::Loading(id);
                        return ScanAction::LoadConfig;
                    }
                }
                self.stage = ScanStage::Listing;
                ScanAction::NextEntry
            },
            ScanEvent::Config(config) => {
                if let ScanStage::Loading(id) = stage {
                    let ghost before = self.configs@;
                    self.configs.push((id, config));
                    assert(config_views(self.configs@) =~= config_views(before).push(
                        (id@, config@),
                    ));
                }
                self.stage = ScanStage::Listing;
                ScanAction::NextEntry
            },
        }
    }

    /// Takes in an entry by its name and path, and says what to do next.
    pub fn entry<E>(&mut self, id: String, path: &str) -> (action: ScanAction<E>)
        requires
            old(self)@.stage is Listing,
        ensures
            exists|ignored: Result<bool, FailureView>| #[trigger]
                is_verdict_on(path@, ignored) && is_system_verdict(path@, ignored) && (
                final(self)@,
                action@,
            ) == scan_step(old(self)@, EventView::<E>::Entry { id: id@, ignored }),
            action is NextEntry || action is CheckDirectory || action is Refuse,
            action is NextEntry ==> final(self).stage is Listing && is_system_verdict(
                path@,
                Ok::<bool, FailureView>(true),
            ),
            action is CheckDirectory ==> final(self).stage == ScanStage::Checking(id)
                && is_system_verdict(path@, Ok::<bool, FailureView>(false)),
            action matches ScanAction::Refuse(failure) ==> is_system_verdict(
                path@,
                Err::<bool, FailureView>(failure@),
            ),
            final(self).configs@ == old(self).configs@,
    {
        let ignored = should_ignore(path);
        let ghost verdict = verdict_view(ignored);
        let action = self.step(ScanEvent::Entry { id, ignored });
        assert(is_verdict_on(path@, verdict));
        action
    }
}

/// All that there is to find out about one entry of the games directory.
pub ghost struct EntryFacts<E> {
    /// Its name, or the `Debug` of a name that is not text.
    pub name: Result<Seq<char>, Seq<char>>,
    /// Whether its path is to be ignored.
    pub ignored: Result<bool, FailureView>,
    /// Whether it is a directory.
    pub is_dir: Result<bool, E>,
    /// Whether it holds a configuration file.
    pub has_config: bool,
    /// What is in that file.
    pub config: Result<GameConfigView, E>,
}

/// What an entry amounts to.
pub ghost enum EntryOutcome<E> {
    /// It is no game.
    Skip,
    /// It is this game.
    Keep(Listed),
    /// It may not be there.
    Refuse(FailureView),
    /// It could not be read.
    GiveUp(E),
}

/// What an entry of the games directory, if it could be read, amounts to. A game
/// is a directory that is not ignored and holds a configuration file.
pub open spec fn entry_outcome<E>(entry: Result<EntryFacts<E>, E>) -> EntryOutcome<E> {
    match entry {
        Err(error) => EntryOutcome::GiveUp(error),
        Ok(facts) => match facts.name {
            Err(quoted) => EntryOutcome::Refuse(
                failure_about(ErrorKind::InvalidInput, quoted, ": not a valid number"@),
            ),
            Ok(id) => match facts.ignored {
                Err(failure) => EntryOutcome::Refuse(failure),
                Ok(true) => EntryOutcome::Skip,
                Ok(false) => match facts.is_dir {
                    Err(error) => EntryOutcome::GiveUp(error),
                    Ok(is_dir) => if !is_dir || !facts.has_config {
                        EntryOutcome::Skip
                    } else {
                        match facts.config {
                            Err(error) => EntryOutcome::GiveUp(error),
                            Ok(config) => EntryOutcome::Keep((id, config)),
                        }
                    },
                },
            },
        },
    }
}

/// How reading `entries` ends, after `found`: with all games in the order of
/// their entries, or at the first entry that may not be there or cannot be read.
pub open spec fn load_outcome<E>(
    found: Seq<Listed>,
    entries: Seq<Result<EntryFacts<E>, E>>,
) -> ActionView<E>
    decreases entries.len(),
{
    if entries.len() == 0 {
        ActionView::Finish(found)
    } else {
        match entry_outcome(entries[0]) {
            EntryOutcome::Skip => load_outcome(found, entries.drop_first()),
            EntryOutcome::Keep(game) => load_outcome(found.push(game), entries.drop_first()),
            EntryOutcome::Refuse(failure) => ActionView::Refuse(failure),
            EntryOutcome::GiveUp(error) => ActionView::GiveUp(error),
        }
    }
}

/// What the caller reports when it is asked for the next entry, and finds
/// `entry`.
pub open spec fn entry_event<E>(entry: Result<EntryFacts<E>, E>) -> EventView<E> {
    match entry {
        Err(error) => EventView::Failed(error),
        Ok(facts) => match facts.name {
            Err(quoted) => EventView::BadName(quoted),
            Ok(id) => EventView::Entry { id, ignored: facts.ignored },
        },
    }
}

/// What the caller reports of an entry on `action`.
pub open spec fn facts_event<E>(action: ActionView<E>, facts: EntryFacts<E>) -> EventView<E> {
    match action {
        ActionView::CheckDirectory => match facts.is_dir {
            Ok(yes) => EventView::IsDirectory(yes),
            Err(error) => EventView::Failed(error),
        },
        ActionView::CheckConfigFile => EventView::HasConfigFile(facts.has_config),
        _ => match facts.config {
            Ok(config) => EventView::Config(config),
            Err(error) => EventView::Failed(error),
        },
    }
}

/// Whether `action` asks something about the current entry.
pub open spec fn asks<E>(action: ActionView<E>) -> bool {
    action is CheckDirectory || action is CheckConfigFile || action is LoadConfig
}

/// The scan and the action in which `rounds` further answers about an entry
/// result; fewer where the scan stops asking before.
pub open spec fn answer<E>(
    scan: ScanView,
    action: ActionView<E>,
    facts: EntryFacts<E>,
    rounds: nat,
) -> (ScanView, ActionView<E>)
    decreases rounds,
{
    if rounds == 0 || !asks(action) {
        (scan, action)
    } else {
        let (next, then) = scan_step(scan, facts_event(action, facts));
        answer(next, then, facts, (rounds - 1) as nat)
    }
}

/// Whether each of these answers is one that the scan can take in.
pub open spec fn answerable<E>(
    scan: ScanView,
    action: ActionView<E>,
    facts: EntryFacts<E>,
    rounds: nat,
) -> bool
    decreases rounds,
{
    rounds == 0 || !asks(action) || {
        let event = facts_event(action, facts);
        let (next, then) = scan_step(scan, event);
        answers(scan.stage, event) && answerable(next, then, facts, (rounds - 1) as nat)
    }
}

/// The scan and the action after `entry` was looked at as far as the scan asked.
pub open spec fn after_entry<E>(scan: ScanView, entry: Result<EntryFacts<E>, E>) -> (
    ScanView,
    ActionView<E>,
) {
    let (next, then) = scan_step(scan, entry_event(entry));
    match entry {
        Ok(facts) => answer(next, then, facts, 3),
        Err(_) => (next, then),
    }
}

/// How a scan ends whose caller finds `entries` in the directory.
pub open spec fn scan_outcome<E>(
    scan: ScanView,
    entries: Seq<Result<EntryFacts<E>, E>>,
) -> ActionView<E>
    decreases entries.len(),
{
    if entries.len() == 0 {
        scan_step(scan, EventView::<E>::End).1
    } else {
        let (next, then) = after_entry(scan, entries[0]);
        if then is NextEntry {
            scan_outcome(next, entries.drop_first())
        } else {
            then
        }
    }
}

/// Three questions are enough for any entry, each is answered by what the caller
/// can report on it, and they come out as the entry's outcome says: a game is
/// added, any other entry leaves the games as they were, and a bad entry ends the
/// scan.
pub proof fn law_entry_is_decided<E>(scan: ScanView, entry: Result<EntryFacts<E>, E>)
    requires
        scan.stage is Listing,
    ensures
        answers(scan.stage, entry_event(entry)),
        entry matches Ok(facts) ==> answerable(
            scan_step(scan, entry_event(entry)).0,
            scan_step(scan, entry_event(entry)).1,
            facts,
            3,
        ),
        match entry_outcome(entry) {
            EntryOutcome::Skip => after_entry(scan, entry) == (scan, ActionView::<E>::NextEntry),
            EntryOutcome::Keep(game) => after_entry(scan, entry) == (
                ScanView { configs: scan.configs.push(game), ..scan },
                ActionView::<E>::NextEntry,
            ),
            EntryOutcome::Refuse(failure) => after_entry(scan, entry) == (
                ScanView { stage: StageView::Closed, ..scan },
                ActionView::<E>::Refuse(failure),
            ),
            EntryOutcome::GiveUp(error) => after_entry(scan, entry) == (
                ScanView { stage: StageView::Closed, ..scan },
                ActionView::<E>::GiveUp(error),
            ),
        },
{
    reveal_with_fuel(answer, 4);
    reveal_with_fuel(answerable, 4);
}

/// A scan ends as the contents of the directory say: with every entry that is a
/// game, in the order of the directory, or with the first error that there is to
/// find.
pub proof fn law_scan_loads_the_games<E>(
    scan: ScanView,
    entries: Seq<Result<EntryFacts<E>, E>>,
)
    requires
        scan.stage is Listing,
    ensures
        scan_outcome(scan, entries) == load_outcome(scan.configs, entries),
    decreases entries.len(),
{
    if entries.len() > 0 {
        law_entry_is_decided(scan, entries[0]);
        let (next, then) = after_entry(scan, entries[0]);
        if then is NextEntry {
            law_scan_loads_the_games(next, entries.drop_first());
        }
    }
}

/// The games among `entries`, in order.
pub open spec fn games_among<E>(entries: Seq<Result<EntryFacts<E>, E>>) -> Seq<Listed>
    decreases entries.len(),
{
    if entries.len() == 0 {
        Seq::empty()
    } else {
        let rest = games_among(entries.drop_first());
        match entry_outcome(entries[0]) {
            EntryOutcome::Keep(game) => seq![game] + rest,
            _ => rest,
        }
    }
}

/// Whether an entry lets the reading go on.
pub open spec fn is_readable<E>(entry: Result<EntryFacts<E>, E>) -> bool {
    entry_outcome(entry) is Skip || entry_outcome(entry) is Keep
}

/// Reading a directory succeeds exactly when every entry lets it go on, and then
/// what was found is followed by all the games among the entries.
pub proof fn law_loading_keeps_all_games<E>(
    found: Seq<Listed>,
    entries: Seq<Result<EntryFacts<E>, E>>,
)
    ensures
        load_outcome(found, entries) is Finish <==> (forall|i: int|
            0 <= i < entries.len() ==> is_readable(#[trigger] entries[i])),
        load_outcome(found, entries) is Finish ==> load_outcome(found, entries)
            == ActionView::<E>::Finish(found + games_among(entries)),
    decreases entries.len(),
{
    if entries.len() == 0 {
        assert(found + games_among(entries) =~= found);
    } else {
        let rest = entries.drop_first();
        assert(forall|i: int| 0 <= i < rest.len() ==> #[trigger] rest[i] == entries[i + 1]);
        assert((forall|i: int| 0 <= i < entries.len() ==> is_readable(#[trigger] entries[i])) <==> (
        is_readable(entries[0]) && forall|i: int|
            0 <= i < rest.len() ==> is_readable(#[trigger] rest[i]))) by {
            assert forall|i: int|
                0 <= i < entries.len() && is_readable(entries[0]) && (forall|j: int|
                    0 <= j < rest.len() ==> is_readable(#[trigger] rest[j])) implies is_readable(
                #[trigger] entries[i],
            ) by {
                if i > 0 {
                    assert(rest[i - 1] == entries[i]);
                }
            }
        }
        match entry_outcome(entries[0]) {
            EntryOutcome::Keep(game) => {
                law_loading_keeps_all_games(found.push(game), rest);
                assert(found.push(game) + games_among(rest) =~= found + (seq![game]
                    + games_among(rest)));
            },
            EntryOutcome::Skip => {
                law_loading_keeps_all_games(found, rest);
            },
            _ => {},
        }
    }
}

/// Whether an entry is the directory of the game `game`: its name is text and is
/// the game's id, it is not ignored, it is a directory, and its configuration
/// file holds the game's configuration.
pub open spec fn is_game_directory<E>(entry: Result<EntryFacts<E>, E>, game: Listed) -> bool {
    &&& entry matches Ok(facts)
    &&& facts.name == Ok::<Seq<char>, Seq<char>>(game.0)
    &&& facts.ignored == Ok::<bool, FailureView>(false)
    &&& facts.is_dir == Ok::<bool, E>(true)
    &&& facts.has_config
    &&& facts.config == Ok::<GameConfigView, E>(game.1)
}

/// A game is loaded exactly when its directory is among the entries. So what is
/// ignored, is no directory or has no configuration file is never a game.
pub proof fn law_games_are_game_directories<E>(
    entries: Seq<Result<EntryFacts<E>, E>>,
    game: Listed,
)
    ensures
        games_among(entries).contains(game) <==> exists|i: int|
            0 <= i < entries.len() && is_game_directory(#[trigger] entries[i], game),
    decreases entries.len(),
{
    if entries.len() > 0 {
        let first = entries[0];
        let rest = entries.drop_first();
        law_games_are_game_directories(rest, game);
        let among = exists|i: int|
            0 <= i < entries.len() && is_game_directory(#[trigger] entries[i], game);
        let among_rest = exists|i: int|
            0 <= i < rest.len() && is_game_directory(#[trigger] rest[i], game);
        assert(among <==> is_game_directory(first, game) || among_rest) by {
            if among {
                let i = choose|i: int|
                    0 <= i < entries.len() && is_game_directory(#[trigger] entries[i], game);
                if i > 0 {
                    assert(rest[i - 1] == entries[i]);
                }
            }
            if among_rest {
                let i = choose|i: int|
                    0 <= i < rest.len() && is_game_directory(#[trigger] rest[i], game);
                assert(entries[i + 1] == rest[i]);
            }
        }
        assert(is_game_directory(first, game) <==> entry_outcome(first) == EntryOutcome::<
            E,
        >::Keep(game));
        if let EntryOutcome::Keep(kept) = entry_outcome(first) {
            let all = seq![kept] + games_among(rest);
            assert(all.contains(game) <==> kept == game || games_among(rest).contains(game)) by {
                if kept == game {
                    assert(all[0] == game);
                }
                if games_among(rest).contains(game) {
                    let i = choose|i: int|
                        0 <= i < games_among(rest).len() && games_among(rest)[i] == game;
                    assert(all[i + 1] == game);
                }
                if all.contains(game) {
                    let i = choose|i: int| 0 <= i < all.len() && all[i] == game;
                    if i > 0 {
                        assert(games_among(rest)[i - 1] == game);
                    }
                }
            }
        }
    }
}

/// Whether an entry, if it can be read and its name is text, lies at `path`: the
/// path's file name is the entry's name, and whether the entry is ignored is the
/// verdict on that path.
pub open spec fn lies_at<E>(entry: Result<EntryFacts<E>, E>, path: Seq<char>) -> bool {
    entry matches Ok(facts) ==> facts.name matches Ok(id) ==> {
        &&& is_portable(path)
        &&& final_component(path) == Some(id)
        &&& is_verdict_on(path, facts.ignored)
    }
}

/// Whether an entry is a directory with the name and the configuration of `game`,
/// ignored or not.
pub open spec fn is_configured_directory<E>(
    entry: Result<EntryFacts<E>, E>,
    game: Listed,
) -> bool {
    &&& entry matches Ok(facts)
    &&& facts.name == Ok::<Seq<char>, Seq<char>>(game.0)
    &&& facts.is_dir == Ok::<bool, E>(true)
    &&& facts.has_config
    &&& facts.config == Ok::<GameConfigView, E>(game.1)
}

/// Among entries that lie at `paths`, the games are the directories with a
/// configuration file whose names start with neither `.` nor `#`. So no id of a
/// game starts with one of these.
pub proof fn law_ignored_names_are_no_games<E>(
    entries: Seq<Result<EntryFacts<E>, E>>,
    paths: Seq<Seq<char>>,
    game: Listed,
)
    requires
        paths.len() == entries.len(),
        forall|i: int| 0 <= i < entries.len() ==> lies_at(#[trigger] entries[i], paths[i]),
    ensures
        games_among(entries).contains(game) <==> !is_ignored_name(game.0) && exists|i: int|
            0 <= i < entries.len() && is_configured_directory(#[trigger] entries[i], game),
        games_among(entries).contains(game) ==> !(game.0.len() > 0 && (game.0[0] == '.'
            || game.0[0] == '#')),
        games_among(entries).contains(game) <==> (game.0.len() == 0 || (game.0[0] != '.'
            && game.0[0] != '#')) && exists|i: int|
            0 <= i < entries.len() && (#[trigger] entries[i] matches Ok(facts) && facts.name
                == Ok::<Seq<char>, Seq<char>>(game.0) && facts.is_dir == Ok::<bool, E>(true) && facts.has_config && facts.config
                == Ok::<GameConfigView, E>(game.1)),
{
    assert((exists|i: int|
        0 <= i < entries.len() && is_configured_directory(#[trigger] entries[i], game)) <==> (
    exists|i: int|
        0 <= i < entries.len() && (#[trigger] entries[i] matches Ok(facts) && facts.name == Ok::<
            Seq<char>,
            Seq<char>,
        >(game.0) && facts.is_dir == Ok::<bool, E>(true) && facts.has_config && facts.config
            == Ok::<GameConfigView, E>(game.1))));
    law_games_are_game_directories(entries, game);
    assert forall|i: int| 0 <= i < entries.len() implies (is_game_directory(
        #[trigger] entries[i],
        game,
    ) <==> !is_ignored_name(game.0) && is_configured_directory(entries[i], game)) by {
        assert(lies_at(entries[i], paths[i]));
    }
}

/// The name of an entry, if it can be read and its name is text.
pub open spec fn entry_name<E>(entry: Result<EntryFacts<E>, E>) -> Option<Seq<char>> {
    match entry {
        Ok(facts) => match facts.name {
            Ok(id) => Some(id),
            Err(_) => None,
        },
        Err(_) => None,
    }
}

/// Whether no two of the entries have the same name.
pub open spec fn names_differ<E>(entries: Seq<Result<EntryFacts<E>, E>>) -> bool {
    forall|i: int, j: int|
        0 <= i < j < entries.len() && entry_name(#[trigger] entries[i]) is Some ==> entry_name(
            entries[i],
        ) != entry_name(#[trigger] entries[j])
}

/// Entries with different names are games with different ids.
pub proof fn law_game_ids_are_distinct<E>(
    entries: Seq<Result<EntryFacts<E>, E>>,
    j: int,
    k: int,
)
    requires
        names_differ(entries),
        0 <= j < k < games_among(entries).len(),
    ensures
        games_among(entries)[j].0 != games_among(entries)[k].0,
    decreases entries.len(),
{
    let rest = entries.drop_first();
    let games = games_among(rest);
    assert(forall|i: int| 0 <= i < rest.len() ==> #[trigger] rest[i] == entries[i + 1]);
    if let EntryOutcome::Keep(first) = entry_outcome(entries[0]) {
        if j == 0 {
            let other = games[k - 1];
            assert(games.contains(other));
            law_games_are_game_directories(rest, other);
            let i = choose|i: int|
                0 <= i < rest.len() && is_game_directory(#[trigger] rest[i], other);
            assert(entry_name(entries[i + 1]) == Some(other.0));
            assert(entry_name(entries[0]) == Some(first.0));
        } else {
            law_game_ids_are_distinct(rest, j - 1, k - 1);
        }
    } else {
        law_game_ids_are_distinct(rest, j, k);
    }
}

/// What a scan does on each answer: an entry that is ignored, is no directory or holds
/// no configuration file is passed over; any other is asked about further, and becomes
/// a game under its own name when its configuration is read, behind the games found
/// before; at the end, all games found are handed over; and a failure ends the scan
/// with that failure.
pub proof fn law_scan_goes_on_as_found<E>(
    found: Seq<Listed>,
    id: Seq<char>,
    quoted: Seq<char>,
    failure: FailureView,
    config: GameConfigView,
    error: E,
)
    ensures
        ({
            let at = |stage: StageView| ScanView { stage, configs: found };
            let listing = at(StageView::Listing);
            let checking = at(StageView::Checking(id));
            let probing = at(StageView::Probing(id));
            let loading = at(StageView::Loading(id));
            let closed = at(StageView::Closed);
            &&& scan_step(listing, EventView::<E>::Entry { id, ignored: Ok(true) }) == (
                listing,
                ActionView::<E>::NextEntry,
            )
            &&& scan_step(listing, EventView::<E>::Entry { id, ignored: Ok(false) }) == (
                checking,
                ActionView::<E>::CheckDirectory,
            )
            &&& scan_step(listing, EventView::<E>::Entry { id, ignored: Err(failure) }) == (
                closed,
                ActionView::<E>::Refuse(failure),
            )
            &&& scan_step(listing, EventView::<E>::BadName(quoted)) == (
                closed,
                ActionView::<E>::Refuse(
                    FailureView {
                        kind: ErrorKind::InvalidInput,
                        message: quoted + ": not a valid number"@,
                    },
                ),
            )
            &&& scan_step(listing, EventView::<E>::End).1 == ActionView::<E>::Finish(found)
            &&& scan_step(checking, EventView::<E>::IsDirectory(true)) == (
                probing,
                ActionView::<E>::CheckConfigFile,
            )
            &&& scan_step(checking, EventView::<E>::IsDirectory(false)) == (
                listing,
                ActionView::<E>::NextEntry,
            )
            &&& scan_step(probing, EventView::<E>::HasConfigFile(true)) == (
                loading,
                ActionView::<E>::LoadConfig,
            )
            &&& scan_step(probing, EventView::<E>::HasConfigFile(false)) == (
                listing,
                ActionView::<E>::NextEntry,
            )
            &&& scan_step(loading, EventView::<E>::Config(config)) == (
                ScanView { stage: StageView::Listing, configs: found.push((id, config)) },
                ActionView::<E>::NextEntry,
            )
            &&& scan_step(listing, EventView::Failed(error)) == (closed, ActionView::GiveUp(error))
            &&& scan_step(checking, EventView::Failed(error)) == (closed, ActionView::GiveUp(error))
            &&& scan_step(loading, EventView::Failed(error)) == (closed, ActionView::GiveUp(error))
        }),
{
}

/// A directory that does not exist, and one that is none, are refused, which is said of
/// them; any other is read.
pub proof fn law_only_a_directory_is_read(games_dir: Seq<char>, is_dir: bool)
    ensures
        directory_failure(games_dir, false, is_dir) == Some(
            FailureView {
                kind: ErrorKind::NotFound,
                message: games_dir + ": no such file or directory"@,
            },
        ),
        directory_failure(games_dir, true, false) == Some(
            FailureView {
                kind: ErrorKind::InvalidInput,
                message: games_dir + ": not a directory"@,
            },
        ),
        directory_failure(games_dir, true, true) is None,
{
}

/// Where the games among `entries` are.
spec fn game_places<E>(entries: Seq<Result<EntryFacts<E>, E>>) -> Seq<int>
    decreases entries.len(),
{
    if entries.len() == 0 {
        Seq::empty()
    } else {
        let rest = game_places(entries.drop_first()).map_values(|place: int| place + 1);
        match entry_outcome(entries[0]) {
            EntryOutcome::Keep(_) => seq![0int] + rest,
            _ => rest,
        }
    }
}

proof fn lemma_game_places<E>(entries: Seq<Result<EntryFacts<E>, E>>)
    ensures
        game_places(entries).len() == games_among(entries).len(),
        forall|k: int|
            0 <= k < game_places(entries).len() ==> 0 <= #[trigger] game_places(entries)[k]
                < entries.len() && is_game_directory(
                entries[game_places(entries)[k]],
                games_among(entries)[k],
            ),
        forall|j: int, k: int|
            0 <= j < k < game_places(entries).len() ==> #[trigger] game_places(entries)[j]
                < #[trigger] game_places(entries)[k],
        forall|i: int|
            0 <= i < entries.len() && entry_outcome(#[trigger] entries[i]) is Keep
                ==> game_places(entries).contains(i),
    decreases entries.len(),
{
    if entries.len() > 0 {
        let rest = entries.drop_first();
        let places = game_places(entries);
        let inner = game_places(rest);
        lemma_game_places(rest);
        let shift: int = if entry_outcome(entries[0]) is Keep {
            1
        } else {
            0
        };
        assert(forall|k: int|
            shift <= k < places.len() ==> #[trigger] places[k] == inner[k - shift] + 1);
        assert(shift == 1 ==> places[0] == 0);
        assert forall|k: int| 0 <= k < places.len() implies 0 <= #[trigger] places[k]
            < entries.len() && is_game_directory(entries[places[k]], games_among(entries)[k]) by {
            if k >= shift {
                assert(rest[inner[k - shift]] == entries[places[k]]);
                assert(games_among(entries)[k] == games_among(rest)[k - shift]);
            }
        }
        assert forall|j: int, k: int| 0 <= j < k < places.len() implies #[trigger] places[j]
            < #[trigger] places[k] by {
            if j >= shift {
                assert(inner[j - shift] < inner[k - shift]);
            } else {
                assert(inner[k - shift] >= 0);
            }
        }
        assert forall|i: int|
            0 <= i < entries.len() && entry_outcome(#[trigger] entries[i]) is Keep implies
        places.contains(i) by {
            if i == 0 {
                assert(places[0] == 0);
            } else {
                assert(rest[i - 1] == entries[i]);
                let k = choose|k: int| 0 <= k < inner.len() && inner[k] == i - 1;
                assert(places[k + shift] == i);
            }
        }
    }
}

/// The games that are loaded are the entries that are directories, are not ignored and
/// hold a configuration file: all of them, each once, in the order of the directory,
/// each under the name of its entry and with what its own configuration file says.
pub proof fn law_games_are_all_game_directories_in_order<E>(
    entries: Seq<Result<EntryFacts<E>, E>>,
    configs: Seq<Listed>,
)
    requires
        load_outcome(Seq::empty(), entries) == ActionView::<E>::Finish(configs),
    ensures
        exists|places: Seq<int>|
            #![trigger places.len()]
            places.len() == configs.len() && (forall|k: int|
                0 <= k < configs.len() ==> 0 <= #[trigger] places[k] < entries.len() && (
                entries[places[k]] matches Ok(facts) && facts.name == Ok::<Seq<char>, Seq<char>>(
                    configs[k].0,
                ) && facts.ignored == Ok::<bool, FailureView>(false) && facts.is_dir == Ok::<
                    bool,
                    E,
                >(true) && facts.has_config && facts.config == Ok::<GameConfigView, E>(
                    configs[k].1,
                ))) && (forall|j: int, k: int|
                0 <= j < k < configs.len() ==> #[trigger] places[j] < #[trigger] places[k]) && (
            forall|i: int|
                0 <= i < entries.len() && (#[trigger] entries[i] matches Ok(facts)
                    && facts.ignored == Ok::<bool, FailureView>(false) && facts.is_dir == Ok::<
                    bool,
                    E,
                >(true) && facts.has_config) ==> places.contains(i)),
{
    law_loading_keeps_all_games(Seq::empty(), entries);
    assert(Seq::<Listed>::empty() + games_among(entries) =~= games_among(entries));
    lemma_game_places(entries);
    let places = game_places(entries);
    assert forall|i: int|
        0 <= i < entries.len() && (#[trigger] entries[i] matches Ok(facts) && facts.ignored == Ok::<
            bool,
            FailureView,
        >(false) && facts.is_dir == Ok::<bool, E>(true) && facts.has_config) implies
        places.contains(i) by {
        assert(is_readable(entries[i]));
    }
    assert forall|k: int| 0 <= k < configs.len() implies 0 <= #[trigger] places[k] < entries.len()
        && (entries[places[k]] matches Ok(facts) && facts.name == Ok::<Seq<char>, Seq<char>>(
        configs[k].0,
    ) && facts.ignored == Ok::<bool, FailureView>(false) && facts.is_dir == Ok::<bool, E>(true)
        && facts.has_config && facts.config == Ok::<GameConfigView, E>(configs[k].1)) by {
        assert(is_game_directory(entries[places[k]], games_among(entries)[k]));
    }
    assert(places.len() == configs.len());
}

/// Entries that can be read and are in order do not stop the reading. The first one
/// that is not does, with its own error: that it could not be listed, that its name is
/// not text, that its path is invalid, that it could not be looked at, or that its
/// configuration could not be read.
pub proof fn law_first_bad_entry_ends_the_reading<E>(
    found: Seq<Listed>,
    before: Seq<Result<EntryFacts<E>, E>>,
    bad: Result<EntryFacts<E>, E>,
    after: Seq<Result<EntryFacts<E>, E>>,
)
    requires
        forall|i: int|
            0 <= i < before.len() ==> (#[trigger] before[i] matches Ok(facts) && facts.name is Ok
                && (facts.ignored == Ok::<bool, FailureView>(true) || (facts.ignored == Ok::<
                bool,
                FailureView,
            >(false) && (facts.is_dir matches Ok(is_dir) && (is_dir && facts.has_config
                ==> facts.config is Ok))))),
    ensures
        load_outcome(found, before) is Finish,
        match bad {
            Err(error) => load_outcome(found, before.push(bad) + after) == ActionView::GiveUp(
                error,
            ),
            Ok(facts) => match facts.name {
                Err(quoted) => load_outcome(found, before.push(bad) + after) == ActionView::<
                    E,
                >::Refuse(
                    FailureView {
                        kind: ErrorKind::InvalidInput,
                        message: quoted + ": not a valid number"@,
                    },
                ),
                Ok(_) => match facts.ignored {
                    Err(failure) => load_outcome(found, before.push(bad) + after) == ActionView::<
                        E,
                    >::Refuse(failure),
                    Ok(true) => true,
                    Ok(false) => match facts.is_dir {
                        Err(error) => load_outcome(found, before.push(bad) + after)
                            == ActionView::GiveUp(error),
                        Ok(is_dir) => is_dir && facts.has_config ==> (facts.config matches Err(
                            error,
                        ) ==> load_outcome(found, before.push(bad) + after) == ActionView::GiveUp(
                            error,
                        )),
                    },
                },
            },
        },
    decreases before.len(),
{
    let all = before.push(bad) + after;
    if before.len() == 0 {
        assert(all[0] == bad);
    } else {
        let rest = before.drop_first();
        assert(all[0] == before[0]);
        assert(all.drop_first() =~= rest.push(bad) + after);
        assert(forall|i: int| 0 <= i < rest.len() ==> #[trigger] rest[i] == before[i + 1]);
        match entry_outcome(before[0]) {
            EntryOutcome::Keep(game) => {
                law_first_bad_entry_ends_the_reading(found.push(game), rest, bad, after);
            },
            _ => {
                law_first_bad_entry_ends_the_reading(found, rest, bad, after);
            },
        }
    }
}

/// The values that stand for a scan and what passes between it and its caller tell all
/// of their contents.
pub proof fn law_scan_values_tell_everything<E>(
    scan: Scan,
    event: ScanEvent<E>,
    action: ScanAction<E>,
)
    ensures
        scan@.configs == config_views(scan.configs@),
        match scan.stage {
            ScanStage::Listing => scan@.stage == StageView::Listing,
            ScanStage::Checking(id) => scan@.stage == StageView::Checking(id@),
            ScanStage::Probing(id) => scan@.stage == StageView::Probing(id@),
            ScanStage::Loading(id) => scan@.stage == StageView::Loading(id@),
            ScanStage::Closed => scan@.stage == StageView::Closed,
        },
        match event {
            ScanEvent::Entry { id, ignored } => {
                &&& event@ matches EventView::Entry { id: named, ignored: verdict }
                &&& named == id@
                &&& match ignored {
                    Ok(yes) => verdict == Ok::<bool, FailureView>(yes),
                    Err(failure) => verdict matches Err(said) && said.kind == failure.kind
                        && said.message == failure.message@,
                }
            },
            ScanEvent::BadName(quoted) => event@ == EventView::<E>::BadName(quoted@),
            ScanEvent::IsDirectory(yes) => event@ == EventView::<E>::IsDirectory(yes),
            ScanEvent::HasConfigFile(yes) => event@ == EventView::<E>::HasConfigFile(yes),
            ScanEvent::Config(config) => event@ == EventView::<E>::Config(config@),
            ScanEvent::End => event@ == EventView::<E>::End,
            ScanEvent::Failed(error) => event@ == EventView::Failed(error),
        },
        match action {
            ScanAction::Finish(configs) => action@ == ActionView::<E>::Finish(
                config_views(configs@),
            ),
            ScanAction::Refuse(failure) => action@ matches ActionView::Refuse(said) && said.kind
                == failure.kind && said.message == failure.message@,
            ScanAction::GiveUp(error) => action@ == ActionView::GiveUp(error),
            ScanAction::NextEntry => action@ == ActionView::<E>::NextEntry,
            ScanAction::CheckDirectory => action@ == ActionView::<E>::CheckDirectory,
            ScanAction::CheckConfigFile => action@ == ActionView::<E>::CheckConfigFile,
            ScanAction::LoadConfig => action@ == ActionView::<E>::LoadConfig,
        },
{
}

} // verus!
