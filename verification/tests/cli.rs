use std::path::PathBuf;

use beluna::cli::{parse_cli_options, parse_command, CliCommand};

fn args(items: &[&str]) -> Vec<String> {
    items.iter().map(|s| s.to_string()).collect()
}

#[test]
fn parses_required_socket_path() {
    let args = vec!["--socket-path".to_string(), "./beluna.sock".to_string()];
    let options = parse_cli_options(args).expect("options should parse");
    assert_eq!(PathBuf::from(options.socket_path), PathBuf::from("./beluna.sock"));
    assert_eq!(options.endpoint_name, "body.cli");
}

#[test]
fn parses_endpoint_name_override() {
    let args = vec![
        "--socket-path".to_string(),
        "/tmp/b.sock".to_string(),
        "--endpoint-name".to_string(),
        "body.cli.local".to_string(),
    ];
    let options = parse_cli_options(args).expect("options should parse");
    assert_eq!(PathBuf::from(options.socket_path), PathBuf::from("/tmp/b.sock"));
    assert_eq!(options.endpoint_name, "body.cli.local");
}

#[test]
fn parses_legacy_endpoint_id_flag_for_backward_compatibility() {
    let args = vec![
        "--socket-path".to_string(),
        "/tmp/b.sock".to_string(),
        "--endpoint-id".to_string(),
        "body.cli.legacy".to_string(),
    ];
    let options = parse_cli_options(args).expect("options should parse");
    assert_eq!(PathBuf::from(options.socket_path), PathBuf::from("/tmp/b.sock"));
    assert_eq!(options.endpoint_name, "body.cli.legacy");
}

#[test]
fn rejects_missing_socket_path() {
    let args = Vec::<String>::new();
    assert!(parse_cli_options(args).is_err());
}

#[test]
fn cli_reports_missing_flag_value() {
    let err = parse_cli_options(args(&["--socket-path"])).unwrap_err();
    assert_eq!(err, "missing value for --socket-path");
    let err = parse_cli_options(args(&["--socket-path", "/s", "--endpoint-id"])).unwrap_err();
    assert_eq!(err, "missing value for --endpoint-id");
}

#[test]
fn cli_rejects_unknown_argument_and_blank_endpoint() {
    let err = parse_cli_options(args(&["--verbose"])).unwrap_err();
    assert_eq!(
        err,
        "unknown argument: --verbose. usage: beluna-cli --socket-path <path> [--endpoint-name <name>]"
    );
    let err = parse_cli_options(args(&["--socket-path", "/s", "--endpoint-name", "  "])).unwrap_err();
    assert_eq!(err, "endpoint name cannot be empty");
    let err = parse_cli_options(args(&["--endpoint-name", "x"])).unwrap_err();
    assert_eq!(
        err,
        "missing required argument --socket-path. usage: beluna-cli --socket-path <path> [--endpoint-name <name>]"
    );
}

#[test]
fn cli_later_flag_overrides_earlier() {
    let options = parse_cli_options(args(&[
        "--socket-path",
        "/a",
        "--socket-path",
        "/b",
        "--endpoint-name",
        "one",
        "--endpoint-id",
        "two",
    ]))
    .unwrap();
    assert_eq!(options.socket_path, "/b");
    assert_eq!(options.endpoint_name, "two");
}

#[test]
fn core_command_defaults_to_run() {
    match parse_command(&Vec::new()).unwrap() {
        CliCommand::Run { config_path } => assert_eq!(config_path, "./beluna.jsonc"),
        _ => panic!("expected run"),
    }
    match parse_command(&args(&["--config", "/etc/b.jsonc"])).unwrap() {
        CliCommand::Run { config_path } => assert_eq!(config_path, "/etc/b.jsonc"),
        _ => panic!("expected run"),
    }
}

#[test]
fn core_command_errors() {
    assert_eq!(
        parse_command(&args(&["--config"])).unwrap_err(),
        "invalid run arguments. usage: beluna [--config <path>]"
    );
    assert_eq!(
        parse_command(&args(&["config", "dump"])).unwrap_err(),
        "unknown config subcommand. usage: beluna config schema [--output <path>]"
    );
    assert_eq!(
        parse_command(&args(&["config", "schema", "--output"])).unwrap_err(),
        "missing value for --output. usage: beluna config schema --output <path>"
    );
    assert_eq!(
        parse_command(&args(&["config", "schema", "-x"])).unwrap_err(),
        "unknown argument for schema command: -x. usage: beluna config schema [--output <path>]"
    );
    assert_eq!(
        parse_command(&args(&["serve"])).unwrap_err(),
        "unknown argument: serve. usage: beluna [--config <path>] | beluna config schema [--output <path>]"
    );
}

#[test]
fn core_command_schema_output() {
    match parse_command(&args(&["config", "schema"])).unwrap() {
        CliCommand::ConfigSchema { output } => assert_eq!(output, None),
        _ => panic!("expected schema"),
    }
    match parse_command(&args(&["config", "schema", "--output", "a.json", "--output", "b.json"]))
        .unwrap()
    {
        CliCommand::ConfigSchema { output } => assert_eq!(output.as_deref(), Some("b.json")),
        _ => panic!("expected schema"),
    }
}
