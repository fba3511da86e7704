use textadventurer::cli::{
    parse_cli_args, CliArgs, Findings, RawArgs, DEFAULT_BINDING, DEFAULT_PORT,
    DEFAULT_STATIC_ASSETS, DEFAULT_WORKERS,
};
use textadventurer::failure::{ErrorKind, Failure};

fn raw() -> RawArgs {
    RawArgs {
        games_dir: "games".to_string(),
        port: DEFAULT_PORT.to_string(),
        binding: DEFAULT_BINDING.to_string(),
        static_assets: DEFAULT_STATIC_ASSETS.to_string(),
        workers: DEFAULT_WORKERS.to_string(),
    }
}

fn found(ip: Option<&'static str>, exists: bool, is_dir: bool) -> Findings<&'static str> {
    Findings { ip, static_dir_exists: exists, static_dir_is_dir: is_dir }
}

fn parse(raw: RawArgs) -> Result<CliArgs<&'static str>, Failure> {
    parse_cli_args(raw, found(Some("ip"), true, true))
}

fn port(text: &str) -> Option<u16> {
    parse(RawArgs { port: text.to_string(), ..raw() }).ok().map(|args| args.port)
}

fn workers(text: &str) -> Option<usize> {
    parse(RawArgs { workers: text.to_string(), ..raw() }).ok().map(|args| args.workers)
}

fn refusal(raw: RawArgs, found: Findings<&'static str>) -> (ErrorKind, String) {
    let failure = parse_cli_args(raw, found).unwrap_err();
    (failure.kind, failure.message)
}

#[test]
fn defaults_are_usable() {
    let args = parse(raw()).unwrap();
    assert_eq!(args.games_dir, "games");
    assert_eq!(args.ip, "ip");
    assert_eq!(args.port, 8080);
    assert_eq!(args.static_dir, "static/");
    assert_eq!(args.workers, 1);
    assert_eq!(DEFAULT_BINDING, "0.0.0.0");
}

#[test]
fn ports() {
    assert_eq!(port("0"), Some(0));
    assert_eq!(port("65535"), Some(65535));
    assert_eq!(port("+80"), Some(80));
    assert_eq!(port("00443"), Some(443));
    for text in vec!["65536", "", "+", "-1", "-0", " 80", "80 ", "8_0", "0x50", "++1", "http", "८"] {
        assert_eq!(port(text), None, "{}", text);
    }
}

#[test]
fn worker_counts() {
    assert_eq!(workers("16"), Some(16));
    assert_eq!(workers(&format!("{}", usize::MAX)), Some(usize::MAX));
    assert_eq!(workers(&format!("{}0", usize::MAX)), None);
    assert_eq!(workers("four"), None);
}

#[test]
fn bad_port_is_refused() {
    let raw = RawArgs { port: "http".to_string(), ..raw() };
    let expected = (ErrorKind::InvalidInput, "http: not a valid number".to_string());
    assert_eq!(refusal(raw, found(Some("ip"), true, true)), expected);
}

#[test]
fn bad_address_is_refused() {
    let raw = RawArgs { binding: "here".to_string(), ..raw() };
    let expected = (ErrorKind::InvalidInput, "here: not a valid IPv4 address".to_string());
    assert_eq!(refusal(raw, found(None, true, true)), expected);
}

#[test]
fn missing_static_directory_is_refused() {
    let expected = (ErrorKind::NotFound, "\"static/\": no such file or directory".to_string());
    assert_eq!(refusal(raw(), found(Some("ip"), false, false)), expected);
}

#[test]
fn file_in_place_of_the_static_directory_is_refused() {
    let expected = (ErrorKind::InvalidInput, "\"static/\": is not a directory".to_string());
    assert_eq!(refusal(raw(), found(Some("ip"), true, false)), expected);
}

#[test]
fn bad_worker_count_is_refused_and_quoted() {
    let raw = RawArgs { workers: "a\"b".to_string(), ..raw() };
    let expected = (ErrorKind::InvalidInput, "\"a\\\"b\": not a valid number".to_string());
    assert_eq!(refusal(raw, found(Some("ip"), true, true)), expected);
}

#[test]
fn first_value_that_cannot_be_used_decides() {
    let bad = || RawArgs { port: "p".to_string(), workers: "w".to_string(), ..raw() };
    assert_eq!(refusal(bad(), found(None, false, false)).1, "p: not a valid number");
    let bad = || RawArgs { workers: "w".to_string(), ..raw() };
    assert_eq!(refusal(bad(), found(None, false, false)).1, "0.0.0.0: not a valid IPv4 address");
    assert_eq!(refusal(bad(), found(Some("ip"), false, false)).0, ErrorKind::NotFound);
    assert_eq!(refusal(bad(), found(Some("ip"), true, false)).1, "\"static/\": is not a directory");
    assert_eq!(refusal(bad(), found(Some("ip"), true, true)).1, "\"w\": not a valid number");
}
