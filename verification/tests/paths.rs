use textadventurer::failure::ErrorKind;
use textadventurer::paths::{should_ignore, should_ignore_named};

#[test]
fn hidden_entries_and_backups_are_ignored() {
    assert!(should_ignore("/games/.git").unwrap());
    assert!(should_ignore("games/#notes#").unwrap());
    assert!(should_ignore(".hidden").unwrap());
    assert!(should_ignore("games/.hidden/").unwrap());
    assert!(should_ignore("games/...x").unwrap());
    assert!(should_ignore("c:/games/.x").unwrap());
    assert!(should_ignore("//srv/games/.git").unwrap());
}

#[test]
fn other_entries_are_not_ignored() {
    assert!(!should_ignore("/games/zork").unwrap());
    assert!(!should_ignore("/.games/zork").unwrap());
    assert!(!should_ignore("#games/a.b#").unwrap());
    assert!(!should_ignore("games/zork/.").unwrap());
    assert!(!should_ignore("games//zork//").unwrap());
    assert!(!should_ignore("ga:me").unwrap());
    assert!(!should_ignore("c:/games/zo:rk").unwrap());
    assert!(!should_ignore("back\\slash/zork").unwrap());
}

#[test]
fn path_without_a_file_name_is_an_error() {
    for path in vec!["games/..", "/", "", ".", "games/../."] {
        let failure = should_ignore(path).unwrap_err();
        assert_eq!(failure.kind, ErrorKind::Other);
        assert_eq!(failure.message, format!("{:?}: invalid path in games dir", std::path::Path::new(path)));
    }
}

#[test]
fn invalid_path_is_quoted() {
    let failure = should_ignore("ga\"mes/..").unwrap_err();
    assert_eq!(failure.message, "\"ga\\\"mes/..\": invalid path in games dir");
}

#[test]
fn entry_is_judged_by_its_name_alone() {
    for dir in vec!["games", "/srv/.games", "#g", "", "a:b", "c:", "d\\e", "//srv/games", "\\\\srv\\games"] {
        for name in vec!["zork", ".git", "#a#", "a.b", "...", ".#"] {
            let path = format!("{}/{}", dir, name);
            let ignored = name.starts_with('.') || name.starts_with('#');
            assert_eq!(should_ignore(&path).unwrap(), ignored, "{}", path);
            assert_eq!(should_ignore(&format!("{}/", path)).unwrap(), ignored);
            assert_eq!(should_ignore(name).unwrap(), ignored);
            assert_eq!(should_ignore_named(&path, Some(name)).unwrap(), ignored);
        }
    }
}

#[test]
fn empty_name_is_not_ignored() {
    assert!(!should_ignore_named("x", Some("")).unwrap());
}
