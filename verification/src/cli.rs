//! The daemon's command line: what it takes for granted and what it refuses.
use crate::failure::{failure_about, ErrorKind, Failure, FailureView};
use crate::text::{
    debug_path, debug_str, parse_u16, parse_usize, parsed_number, path_debug, str_debug,
};
use vstd::prelude::*;

verus! {

/// The port, where the command line gives none.
pub const DEFAULT_PORT: &'static str = "8080";

/// The address, where the command line gives none.
pub const DEFAULT_BINDING: &'static str = "0.0.0.0";

/// The directory of static assets, where the command line gives none.
pub const DEFAULT_STATIC_ASSETS: &'static str = "static/";

/// The number of workers, where the command line gives none.
pub const DEFAULT_WORKERS: &'static str = "1";

/// The command line's values, as they were typed.
#[derive(Debug)]
pub struct RawArgs {
    pub games_dir: String,
    pub port: String,
    pub binding: String,
    pub static_assets: String,
    pub workers: String,
}

/// What the caller found out about the values: `A` is an IP address.
#[derive(Debug)]
pub struct Findings<A> {
    /// The address that the binding writes, if it writes one.
    pub ip: Option<A>,
    /// Whether the directory of static assets exists.
    pub static_dir_exists: bool,
    /// Whether it is a directory.
    pub static_dir_is_dir: bool,
}

/// The command line's values, understood.
#[derive(Debug)]
pub struct CliArgs<A> {
    pub games_dir: String,
    pub ip: A,
    pub port: u16,
    pub static_dir: String,
    pub workers: usize,
}

/// What a [`CliArgs`] says.
#[verifier::ext_equal]
pub struct CliArgsView<A> {
    pub games_dir: Seq<char>,
    pub ip: A,
    pub port: nat,
    pub static_dir: Seq<char>,
    pub workers: nat,
}

impl<A> View for CliArgs<A> {
    type V = CliArgsView<A>;

    open spec fn view(&self) -> CliArgsView<A> {
        CliArgsView {
            games_dir: self.games_dir@,
            ip: self.ip,
            port: self.port as nat,
            static_dir: self.static_dir@,
            workers: self.workers as nat,
        }
    }
}

/// What the command line amounts to. The first value that cannot be used decides:
/// the port, the address, the directory of static assets, the number of workers.
pub open spec fn cli_outcome<A>(raw: RawArgs, found: Findings<A>) -> Result<
    CliArgsView<A>,
    FailureView,
> {
    match parsed_number(raw.port@, u16::MAX as nat) {
        None => Err(
            failure_about(ErrorKind::InvalidInput, raw.port@, ": not a valid number"@),
        ),
        Some(port) => match found.ip {
            None => Err(
                failure_about(
                    ErrorKind::InvalidInput,
                    raw.binding@,
                    ": not a valid IPv4 address"@,
                ),
            ),
            Some(ip) => if !found.static_dir_exists {
                Err(
                    failure_about(
                        ErrorKind::NotFound,
                        path_debug(raw.static_assets@),
                        ": no such file or directory"@,
                    ),
                )
            } else if !found.static_dir_is_dir {
                Err(
                    failure_about(
                        ErrorKind::InvalidInput,
                        path_debug(raw.static_assets@),
                        ": is not a directory"@,
                    ),
                )
            } else {
                match parsed_number(raw.workers@, usize::MAX as nat) {
                    None => Err(
                        failure_about(
                            ErrorKind::InvalidInput,
                            str_debug(raw.workers@),
                            ": not a valid number"@,
                        ),
                    ),
                    Some(workers) => Ok(
                        CliArgsView {
                            games_dir: raw.games_dir@,
                            ip,
                            port,
                            static_dir: raw.static_assets@,
                            workers,
                        },
                    ),
                }
            },
        },
    }
}

/// What the result of reading a command line says.
pub open spec fn cli_view<A>(args: Result<CliArgs<A>, Failure>) -> Result<
    CliArgsView<A>,
    FailureView,
> {
    match args {
        Ok(args) => Ok(args@),
        Err(failure) => Err(failure@),
    }
}

/// Makes sense of the command line's values.
pub fn parse_cli_args<A>(raw: RawArgs, found: Findings<A>) -> (args: Result<CliArgs<A>, Failure>)
    ensures
        cli_view(args) == cli_outcome(raw, found),
        args matches Ok(given) ==> {
            &&& given.games_dir@ == raw.games_dir@
            &&& given.static_dir@ == raw.static_assets@
            &&& found.ip == Some(given.ip)
            &&& parsed_number(raw.port@, u16::MAX as nat) == Some(given.port as nat)
            &&& parsed_number(raw.workers@, usize::MAX as nat) == Some(given.workers as nat)
            &&& found.static_dir_exists
            &&& found.static_dir_is_dir
        },
        args matches Err(failure) ==> {
            ||| parsed_number(raw.port@, u16::MAX as nat) is None && failure.kind
                == ErrorKind::InvalidInput && failure.message@ == raw.port@
                + ": not a valid number"@
            ||| parsed_number(raw.port@, u16::MAX as nat) is Some && found.ip is None
                && failure.kind == ErrorKind::InvalidInput && failure.message@ == raw.binding@
                + ": not a valid IPv4 address"@
            ||| parsed_number(raw.port@, u16::MAX as nat) is Some && found.ip is Some
                && !found.static_dir_exists && failure.kind == ErrorKind::NotFound
                && failure.message@ == path_debug(raw.static_assets@)
                + ": no such file or directory"@
            ||| parsed_number(raw.port@, u16::MAX as nat) is Some && found.ip is Some
                && found.static_dir_exists && !found.static_dir_is_dir && failure.kind
                == ErrorKind::InvalidInput && failure.message@ == path_debug(raw.static_assets@)
                + ": is not a directory"@
            ||| parsed_number(raw.port@, u16::MAX as nat) is Some && found.ip is Some
                && found.static_dir_exists && found.static_dir_is_dir && parsed_number(
                raw.workers@,
                usize::MAX as nat,
            ) is None && failure.kind == ErrorKind::InvalidInput && failure.message@ == str_debug(
                raw.workers@,
            ) + ": not a valid number"@
        },
{
    let port: u16 = match parse_u16(raw.port.as_str()) {
        Some(port) => port,
        None => return Err(
            Failure::about(ErrorKind::InvalidInput, raw.port.as_str(), ": not a valid number"),
        ),
    };
    let ip = match found.ip {
        Some(ip) => ip,
        None => return Err(
            Failure::about(
                ErrorKind::InvalidInput,
                raw.binding.as_str(),
                ": not a valid IPv4 address",
            ),
        ),
    };
    if !found.static_dir_exists {
        let quoted = debug_path(raw.static_assets.as_str());
        return Err(
            Failure::about(ErrorKind::NotFound, quoted.as_str(), ": no such file or directory"),
        );
    }
    if !found.static_dir_is_dir {
        let quoted = debug_path(raw.static_assets.as_str());
        return Err(Failure::about(ErrorKind::InvalidInput, quoted.as_str(), ": is not a directory"));
    }
    let workers: usize = match parse_usize(raw.workers.as_str()) {
        Some(workers) => workers,
        None => {
            let quoted = debug_str(raw.workers.as_str());
            return Err(
                Failure::about(ErrorKind::InvalidInput, quoted.as_str(), ": not a valid number"),
            );
        },
    };
    Ok(
        CliArgs {
            games_dir: raw.games_dir,
            ip,
            port,
            static_dir: raw.static_assets,
            workers,
        },
    )
}

/// A command line is accepted exactly when every value on it can be used.
pub proof fn law_every_value_must_be_usable<A>(raw: RawArgs, found: Findings<A>)
    ensures
        cli_outcome(raw, found) is Ok <==> {
            &&& parsed_number(raw.port@, u16::MAX as nat) is Some
            &&& found.ip is Some
            &&& found.static_dir_exists
            &&& found.static_dir_is_dir
            &&& parsed_number(raw.workers@, usize::MAX as nat) is Some
        },
{
}

/// Where a command line is accepted, each value that results is the one that was
/// given: the two directories letter for letter, the address that was found, and the
/// numbers that the texts for the port and the workers write.
pub proof fn law_accepted_values_are_those_given<A>(
    raw: RawArgs,
    found: Findings<A>,
    args: CliArgs<A>,
)
    requires
        cli_outcome(raw, found) == Ok::<CliArgsView<A>, FailureView>(args@),
    ensures
        args.games_dir@ == raw.games_dir@,
        args.static_dir@ == raw.static_assets@,
        found.ip == Some(args.ip),
        parsed_number(raw.port@, u16::MAX as nat) == Some(args.port as nat),
        parsed_number(raw.workers@, usize::MAX as nat) == Some(args.workers as nat),
{
}

/// A command line is refused for the first value, of the port, the address, the
/// directory of static assets and the workers, that cannot be used; and what is said
/// names that value and what is wrong with it.
pub proof fn law_first_unusable_value_is_named<A>(raw: RawArgs, found: Findings<A>)
    ensures
        parsed_number(raw.port@, u16::MAX as nat) is None ==> (cli_outcome(raw, found) matches Err(
            failure,
        ) && failure.kind == ErrorKind::InvalidInput && failure.message == raw.port@
            + ": not a valid number"@),
        parsed_number(raw.port@, u16::MAX as nat) is Some && found.ip is None ==> (cli_outcome(
            raw,
            found,
        ) matches Err(failure) && failure.kind == ErrorKind::InvalidInput && failure.message
            == raw.binding@ + ": not a valid IPv4 address"@),
        parsed_number(raw.port@, u16::MAX as nat) is Some && found.ip is Some
            && !found.static_dir_exists ==> (cli_outcome(raw, found) matches Err(failure)
            && failure.kind == ErrorKind::NotFound && failure.message == path_debug(
            raw.static_assets@,
        ) + ": no such file or directory"@),
        parsed_number(raw.port@, u16::MAX as nat) is Some && found.ip is Some
            && found.static_dir_exists && !found.static_dir_is_dir ==> (cli_outcome(
            raw,
            found,
        ) matches Err(failure) && failure.kind == ErrorKind::InvalidInput && failure.message
            == path_debug(raw.static_assets@) + ": is not a directory"@),
        parsed_number(raw.port@, u16::MAX as nat) is Some && found.ip is Some
            && found.static_dir_exists && found.static_dir_is_dir && parsed_number(
            raw.workers@,
            usize::MAX as nat,
        ) is None ==> (cli_outcome(raw, found) matches Err(failure) && failure.kind
            == ErrorKind::InvalidInput && failure.message == str_debug(raw.workers@)
            + ": not a valid number"@),
{
}

/// The results of two command lines that are accepted differ where their values do.
pub proof fn law_different_values_are_not_mixed_up<A>(
    raw: RawArgs,
    found: Findings<A>,
    other_raw: RawArgs,
    other_found: Findings<A>,
)
    requires
        cli_outcome(raw, found) is Ok,
        cli_outcome(raw, found) == cli_outcome(other_raw, other_found),
    ensures
        raw.games_dir@ == other_raw.games_dir@,
        raw.static_assets@ == other_raw.static_assets@,
        found.ip == other_found.ip,
{
}

} // verus!
