use textadventurer::catalog::GameConfig;
use textadventurer::failure::{ErrorKind, Failure};
use textadventurer::loader::{Scan, ScanAction, ScanEvent, CONFIG_FILE_NAME};

fn config(name: &str) -> GameConfig {
    GameConfig {
        name: name.to_string(),
        description: "d".to_string(),
        author: "a".to_string(),
        application: "app".to_string(),
        args: vec![],
    }
}

/// An entry of a directory: its name, whether it is a directory, and its
/// configuration, if it holds one.
struct Entry {
    name: &'static str,
    is_dir: Result<bool, &'static str>,
    config: Option<Result<GameConfig, &'static str>>,
}

fn game(name: &'static str) -> Entry {
    Entry { name, is_dir: Ok(true), config: Some(Ok(config(name))) }
}

/// Scans a directory with these entries. Returns the names that were looked at
/// closer, and how the scan ended.
fn scan(entries: Vec<Result<Entry, &'static str>>) -> (Vec<&'static str>, ScanAction<&'static str>) {
    let mut scan = Scan::open("games", true, true).unwrap();
    let mut looked_at = vec![];
    for entry in entries {
        let entry = match entry {
            Ok(entry) => entry,
            Err(error) => return (looked_at, scan.step(ScanEvent::Failed(error))),
        };
        let mut action = scan.entry(entry.name.to_string(), &format!("games/{}", entry.name));
        loop {
            action = match action {
                ScanAction::NextEntry => break,
                ScanAction::CheckDirectory => {
                    looked_at.push(entry.name);
                    scan.step(match entry.is_dir {
                        Ok(yes) => ScanEvent::IsDirectory(yes),
                        Err(error) => ScanEvent::Failed(error),
                    })
                }
                ScanAction::CheckConfigFile => scan.step(ScanEvent::HasConfigFile(entry.config.is_some())),
                ScanAction::LoadConfig => scan.step(match &entry.config {
                    Some(Ok(config)) => ScanEvent::Config(config.clone()),
                    Some(Err(error)) => ScanEvent::Failed(*error),
                    None => unreachable!(),
                }),
                end => return (looked_at, end),
            };
        }
    }
    (looked_at, scan.step(ScanEvent::End))
}

fn ids(action: ScanAction<&'static str>) -> Vec<String> {
    match action {
        ScanAction::Finish(configs) => configs.into_iter().map(|(id, _)| id).collect(),
        _ => panic!("the scan did not finish"),
    }
}

#[test]
fn config_file_has_its_name() {
    assert_eq!(CONFIG_FILE_NAME, "textadventure.toml");
}

#[test]
fn missing_directory_is_refused() {
    let failure = Scan::open("gone", false, false).unwrap_err();
    assert_eq!(failure.kind, ErrorKind::NotFound);
    assert_eq!(failure.message, "gone: no such file or directory");
}

#[test]
fn file_in_place_of_the_directory_is_refused() {
    let failure = Scan::open("file", true, false).unwrap_err();
    assert_eq!(failure.kind, ErrorKind::InvalidInput);
    assert_eq!(failure.message, "file: not a directory");
}

#[test]
fn empty_directory_has_no_games() {
    assert!(ids(scan(vec![]).1).is_empty());
}

#[test]
fn games_are_loaded_in_order() {
    let (looked_at, end) = scan(vec![
        Ok(game("zork")),
        Ok(game(".git")),
        Ok(game("#draft#")),
        Ok(Entry { name: "README", is_dir: Ok(false), config: Some(Ok(config("no"))) }),
        Ok(Entry { name: "empty", is_dir: Ok(true), config: None }),
        Ok(game("adventure")),
    ]);
    assert_eq!(looked_at, vec!["zork", "README", "empty", "adventure"]);
    match &end {
        ScanAction::Finish(configs) => {
            assert_eq!(configs[0].1.name, "zork");
            assert_eq!(configs[1].1.name, "adventure");
        }
        _ => panic!("the scan did not finish"),
    }
    assert_eq!(ids(end), vec!["zork", "adventure"]);
}

#[test]
fn unreadable_entry_ends_the_scan() {
    let (looked_at, end) = scan(vec![Ok(game("zork")), Err("io"), Ok(game("later"))]);
    assert_eq!(looked_at, vec!["zork"]);
    assert!(matches!(end, ScanAction::GiveUp("io")));
}

#[test]
fn failed_look_ends_the_scan() {
    let entry = Entry { name: "a", is_dir: Err("stat"), config: None };
    assert!(matches!(scan(vec![Ok(entry)]).1, ScanAction::GiveUp("stat")));
}

#[test]
fn bad_configuration_ends_the_scan() {
    let entry = Entry { name: "a", is_dir: Ok(true), config: Some(Err("toml")) };
    assert!(matches!(scan(vec![Ok(entry), Ok(game("b"))]).1, ScanAction::GiveUp("toml")));
}

#[test]
fn errors_about_ignored_entries_are_not_found() {
    let entry = Entry { name: ".a", is_dir: Err("stat"), config: Some(Err("toml")) };
    assert_eq!(ids(scan(vec![Ok(entry), Ok(game("b"))]).1), vec!["b"]);
}

#[test]
fn name_that_is_not_text_is_refused() {
    let mut scan = Scan::open("games", true, true).unwrap();
    match scan.step::<()>(ScanEvent::BadName("\"\\xFF\"".to_string())) {
        ScanAction::Refuse(failure) => {
            assert_eq!(failure.kind, ErrorKind::InvalidInput);
            assert_eq!(failure.message, "\"\\xFF\": not a valid number");
        }
        _ => panic!("the name was taken"),
    }
}

#[test]
fn verdict_that_failed_is_passed_on() {
    let mut scan = Scan::open("games", true, true).unwrap();
    let ignored = Err(Failure { kind: ErrorKind::Other, message: "m".to_string() });
    match scan.step::<()>(ScanEvent::Entry { id: "a".to_string(), ignored }) {
        ScanAction::Refuse(failure) => {
            assert_eq!(failure.kind, ErrorKind::Other);
            assert_eq!(failure.message, "m");
        }
        _ => panic!("the entry was taken"),
    }
}
