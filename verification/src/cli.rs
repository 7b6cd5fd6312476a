//! The command-line grammars: the core's `beluna [--config <path>] |
//! beluna config schema [--output <path>]` and the chat client's
//! `beluna-cli --socket-path <path> [--endpoint-name <name>]`.
use vstd::prelude::*;

use crate::text::{is_blank, is_blank_seq, str_eq};

verus! {

/// What the core is asked to do.
#[derive(Debug)]
pub enum CliCommand {
    Run { config_path: String },
    ConfigSchema { output: Option<String> },
}

pub open spec fn run_usage() -> Seq<char> {
    "invalid run arguments. usage: beluna [--config <path>]"@
}

pub open spec fn subcommand_usage() -> Seq<char> {
    "unknown config subcommand. usage: beluna config schema [--output <path>]"@
}

pub open spec fn output_value_usage() -> Seq<char> {
    "missing value for --output. usage: beluna config schema --output <path>"@
}

pub open spec fn unknown_schema_argument(arg: Seq<char>) -> Seq<char> {
    "unknown argument for schema command: "@ + arg
        + ". usage: beluna config schema [--output <path>]"@
}

pub open spec fn unknown_core_argument(arg: Seq<char>) -> Seq<char> {
    "unknown argument: "@ + arg + ". usage: beluna [--config <path>] | beluna config schema [--output <path>]"@
}

/// The result of reading `config schema` options from position `i` on,
/// with `output` read so far.
pub open spec fn schema_options(args: Seq<Seq<char>>, i: int, output: Option<Seq<char>>) -> Result<
    Option<Seq<char>>,
    Seq<char>,
>
    decreases args.len() - i,
{
    if i >= args.len() || i < 0 {
        Ok(output)
    } else if args[i] == "--output"@ {
        if i + 1 >= args.len() {
            Err(output_value_usage())
        } else {
            schema_options(args, i + 2, Some(args[i + 1]))
        }
    } else {
        Err(unknown_schema_argument(args[i]))
    }
}

/// The command that `args` (without the program name) asks for: by
/// default, run with `./beluna.jsonc`.
pub open spec fn core_command(args: Seq<Seq<char>>) -> Result<(bool, Option<Seq<char>>), Seq<char>> {
    if args.len() == 0 {
        Ok((true, Some("./beluna.jsonc"@)))
    } else if args[0] == "--config"@ {
        if args.len() != 2 {
            Err(run_usage())
        } else {
            Ok((true, Some(args[1])))
        }
    } else if args[0] == "config"@ {
        if args.len() < 2 || args[1] != "schema"@ {
            Err(subcommand_usage())
        } else {
            match schema_options(args, 2, None) {
                Ok(o) => Ok((false, o)),
                Err(e) => Err(e),
            }
        }
    } else {
        Err(unknown_core_argument(args[0]))
    }
}

/// `r` is what `core_command` gives: a run with its path, a schema command
/// with its output, or an error message.
pub open spec fn command_matches(expected: Result<(bool, Option<Seq<char>>), Seq<char>>, r: Result<CliCommand, String>) -> bool {
    match expected {
        Ok((true, Some(p))) => r matches Ok(CliCommand::Run { config_path }) && config_path@ == p,
        Ok((false, o)) => r matches Ok(CliCommand::ConfigSchema { output }) && match (output, o) {
            (Some(a), Some(b)) => a@ == b,
            (None, None) => true,
            _ => false,
        },
        Ok((true, None)) => false,
        Err(m) => r matches Err(e) && e@ == m,
    }
}

pub open spec fn strings_view(v: Seq<String>) -> Seq<Seq<char>> {
    v.map_values(|s: String| s@)
}

/// `beluna --config <path>`.
pub fn parse_run_command(args: &Vec<String>) -> (r: Result<CliCommand, String>)
    requires
        args@.len() > 0,
    ensures
        args@.len() != 2 ==> (r matches Err(e) && e@ == run_usage()),
        args@.len() == 2 ==> (r matches Ok(CliCommand::Run { config_path }) && config_path@
            == args@[1]@),
{
    if args.len() != 2 {
        return Err(String::from_str("invalid run arguments. usage: beluna [--config <path>]"));
    }
    Ok(CliCommand::Run { config_path: args[1].clone() })
}

/// `beluna config schema [--output <path>]`.
pub fn parse_config_command(args: &Vec<String>) -> (r: Result<CliCommand, String>)
    requires
        args@.len() > 0,
    ensures
        command_matches(
            if args@.len() < 2 || args@[1]@ != "schema"@ {
                Err(subcommand_usage())
            } else {
                match schema_options(strings_view(args@), 2, None) {
                    Ok(o) => Ok((false, o)),
                    Err(e) => Err(e),
                }
            },
            r,
        ),
{
    let ghost a = strings_view(args@);
    if args.len() < 2 || !str_eq(args[1].as_str(), "schema") {
        return Err(
            String::from_str("unknown config subcommand. usage: beluna config schema [--output <path>]"),
        );
    }
    let mut output: Option<String> = None;
    let mut index: usize = 2;
    while index < args.len()
        invariant
            2 <= index,
            args@.len() >= 2,
            args@[1]@ == "schema"@,
            a == strings_view(args@),
            a.len() == args@.len(),
            schema_options(a, 2, None) == schema_options(
                a,
                index as int,
                match output {
                    Some(s) => Some(s@),
                    None => None,
                },
            ),
        decreases args@.len() - index,
    {
        assert(a[index as int] == args@[index as int]@);
        if str_eq(args[index].as_str(), "--output") {
            if index + 1 >= args.len() {
                return Err(
                    String::from_str(
                        "missing value for --output. usage: beluna config schema --output <path>",
                    ),
                );
            }
            assert(a[index + 1] == args@[index + 1]@);
            output = Some(args[index + 1].clone());
            index = index + 2;
        } else {
            let mut m = String::from_str("unknown argument for schema command: ");
            m.append(args[index].as_str());
            m.append(". usage: beluna config schema [--output <path>]");
            return Err(m);
        }
    }
    Ok(CliCommand::ConfigSchema { output })
}

/// The command that `args` (without the program name) asks for.
pub fn parse_command(args: &Vec<String>) -> (r: Result<CliCommand, String>)
    ensures
        command_matches(core_command(strings_view(args@)), r),
{
    let ghost a = strings_view(args@);
    if args.len() == 0 {
        return Ok(CliCommand::Run { config_path: String::from_str("./beluna.jsonc") });
    }
    assert(a[0] == args@[0]@);
    if str_eq(args[0].as_str(), "--config") {
        let r = parse_run_command(args);
        proof {
            if args@.len() == 2 {
                assert(a[1] == args@[1]@);
            }
        }
        return r;
    }
    if str_eq(args[0].as_str(), "config") {
        proof {
            if args@.len() >= 2 {
                assert(a[1] == args@[1]@);
            }
        }
        return parse_config_command(args);
    }
    let mut m = String::from_str("unknown argument: ");
    m.append(args[0].as_str());
    m.append(". usage: beluna [--config <path>] | beluna config schema [--output <path>]");
    Err(m)
}

/// The chat client's options.
#[derive(Debug, PartialEq, Eq)]
pub struct CliOptions {
    pub socket_path: String,
    pub endpoint_name: String,
}

/// The options read from position `i` on, with the socket path and the
/// endpoint name read so far.
pub open spec fn client_options(
    args: Seq<Seq<char>>,
    i: int,
    socket: Option<Seq<char>>,
    endpoint: Seq<char>,
) -> Result<(Seq<char>, Seq<char>), Seq<char>>
    decreases args.len() - i,
{
    if i >= args.len() || i < 0 {
        if is_blank_seq(endpoint) {
            Err("endpoint name cannot be empty"@)
        } else {
            match socket {
                Some(s) => Ok((s, endpoint)),
                None => Err(
                    "missing required argument --socket-path. usage: beluna-cli --socket-path <path> [--endpoint-name <name>]"@,
                ),
            }
        }
    } else if args[i] == "--socket-path"@ {
        if i + 1 >= args.len() {
            Err("missing value for --socket-path"@)
        } else {
            client_options(args, i + 2, Some(args[i + 1]), endpoint)
        }
    } else if args[i] == "--endpoint-name"@ || args[i] == "--endpoint-id"@ {
        if i + 1 >= args.len() {
            Err("missing value for "@ + args[i])
        } else {
            client_options(args, i + 2, socket, args[i + 1])
        }
    } else {
        Err(
            "unknown argument: "@ + args[i]
                + ". usage: beluna-cli --socket-path <path> [--endpoint-name <name>]"@,
        )
    }
}

/// Reads the chat client's options from `args` (without the program
/// name): `--socket-path` is required, `--endpoint-name` (or the older
/// `--endpoint-id`) defaults to `body.cli` and may not be blank; a later
/// flag overrides an earlier one.
pub fn parse_cli_options(args: Vec<String>) -> (r: Result<CliOptions, String>)
    ensures
        match client_options(strings_view(args@), 0, None, "body.cli"@) {
            Ok((s, e)) => r matches Ok(o) && o.socket_path@ == s && o.endpoint_name@ == e,
            Err(m) => r matches Err(e) && e@ == m,
        },
{
    let ghost a = strings_view(args@);
    let mut socket_path: Option<String> = None;
    let mut endpoint_name = String::from_str("body.cli");
    let mut index: usize = 0;
    while index < args.len()
        invariant
            a == strings_view(args@),
            a.len() == args@.len(),
            client_options(a, 0, None, "body.cli"@) == client_options(
                a,
                index as int,
                match socket_path {
                    Some(s) => Some(s@),
                    None => None,
                },
                endpoint_name@,
            ),
        decreases args@.len() - index,
    {
        assert(a[index as int] == args@[index as int]@);
        let arg = &args[index];
        if str_eq(arg.as_str(), "--socket-path") {
            if index + 1 >= args.len() {
                return Err(String::from_str("missing value for --socket-path"));
            }
            assert(a[index + 1] == args@[index + 1]@);
            socket_path = Some(args[index + 1].clone());
            index = index + 2;
        } else if str_eq(arg.as_str(), "--endpoint-name") || str_eq(arg.as_str(), "--endpoint-id") {
            if index + 1 >= args.len() {
                let mut m = String::from_str("missing value for ");
                m.append(arg.as_str());
                return Err(m);
            }
            assert(a[index + 1] == args@[index + 1]@);
            endpoint_name = args[index + 1].clone();
            index = index + 2;
        } else {
            let mut m = String::from_str("unknown argument: ");
            m.append(arg.as_str());
            m.append(". usage: beluna-cli --socket-path <path> [--endpoint-name <name>]");
            return Err(m);
        }
    }
    if is_blank(endpoint_name.as_str()) {
        return Err(String::from_str("endpoint name cannot be empty"));
    }
    match socket_path {
        Some(socket_path) => Ok(CliOptions { socket_path, endpoint_name }),
        None => Err(
            String::from_str(
                "missing required argument --socket-path. usage: beluna-cli --socket-path <path> [--endpoint-name <name>]",
            ),
        ),
    }
}

} // verus!
