use mcp_cli::cli::{
    help_message, info_without_server_message, is_possible_subcommand, parse_cli_args,
    parse_server_tool, target_of, version_message, CliParse, ParsedArgs,
};

fn args(words: &[&str]) -> Vec<String> {
    words.iter().map(|w| w.to_string()).collect()
}

fn run(words: &[&str]) -> ParsedArgs {
    match parse_cli_args(&args(words)) {
        CliParse::Run(p) => p,
        CliParse::Fail(e) => panic!("unexpected error {}", e.format()),
        CliParse::InfoWithoutServer(_) => panic!("unexpected info without server"),
    }
}

fn fail_type(words: &[&str]) -> String {
    match parse_cli_args(&args(words)) {
        CliParse::Fail(e) => e.error_type,
        _ => panic!("expected an error"),
    }
}

#[test]
fn no_arguments_lists_everything() {
    let p = run(&[]);
    assert_eq!(p.command, "list");
    assert!(!p.with_descriptions);
    let p = run(&["-d", "-c", "/cfg.json"]);
    assert_eq!(p.command, "list");
    assert!(p.with_descriptions);
    assert_eq!(p.config_path.as_deref(), Some("/cfg.json"));
}

#[test]
fn help_and_version_stop_reading() {
    assert_eq!(run(&["info", "--help"]).command, "help");
    assert_eq!(run(&["-v", "--bogus"]).command, "version");
}

#[test]
fn options_are_checked() {
    assert_eq!(fail_type(&["--server"]), "UNKNOWN_OPTION");
    assert_eq!(fail_type(&["-c"]), "MISSING_ARGUMENT");
}

#[test]
fn info_takes_server_and_tool_in_either_form() {
    let p = run(&["info", "fs", "read"]);
    assert_eq!((p.command.as_str(), p.server.as_deref(), p.tool.as_deref()), ("info", Some("fs"), Some("read")));
    let p = run(&["info", "fs/read"]);
    assert_eq!((p.server.as_deref(), p.tool.as_deref()), (Some("fs"), Some("read")));
    assert!(matches!(parse_cli_args(&args(&["info"])), CliParse::InfoWithoutServer(None)));
    assert!(matches!(parse_cli_args(&args(&["-c", "/x", "info"])), CliParse::InfoWithoutServer(Some(c)) if c == "/x"));
}

#[test]
fn grep_takes_exactly_one_pattern() {
    let p = run(&["grep", "*file*"]);
    assert_eq!((p.command.as_str(), p.pattern.as_deref()), ("grep", Some("*file*")));
    assert_eq!(fail_type(&["grep"]), "MISSING_ARGUMENT");
    assert_eq!(fail_type(&["grep", "a", "b"]), "TOO_MANY_ARGUMENTS");
}

#[test]
fn call_collects_its_arguments() {
    let p = run(&["call", "fs", "read", "{\"a\":", "1}"]);
    assert_eq!(p.command, "call");
    assert_eq!((p.server.as_deref(), p.tool.as_deref()), (Some("fs"), Some("read")));
    assert_eq!(p.args.as_deref(), Some("{\"a\": 1}"));
    let p = run(&["call", "fs/read", "{}"]);
    assert_eq!(p.args.as_deref(), Some("{}"));
    let p = run(&["call", "fs/read", "-"]);
    assert_eq!(p.args, None);
    assert_eq!(fail_type(&["call"]), "MISSING_ARGUMENT");
    assert_eq!(fail_type(&["call", "fs/"]), "MISSING_ARGUMENT");
    assert_eq!(fail_type(&["call", "fs"]), "MISSING_ARGUMENT");
}

#[test]
fn misplaced_words_are_explained() {
    assert_eq!(fail_type(&["run", "x"]), "UNKNOWN_SUBCOMMAND");
    assert_eq!(fail_type(&["fs/read"]), "AMBIGUOUS_COMMAND");
    assert_eq!(fail_type(&["fs", "read"]), "AMBIGUOUS_COMMAND");
    let p = run(&["fs", "{}"]);
    assert_eq!((p.command.as_str(), p.server.as_deref()), ("info", Some("fs")));
    let p = run(&["fs"]);
    assert_eq!((p.command.as_str(), p.server.as_deref(), p.tool.as_deref()), ("info", Some("fs"), None));
}

#[test]
fn subcommand_aliases_ignore_case() {
    assert!(is_possible_subcommand("run"));
    assert!(is_possible_subcommand("LS"));
    assert!(!is_possible_subcommand("call"));
}

#[test]
fn server_and_tool_from_words() {
    assert_eq!(parse_server_tool(&[]), (String::new(), None));
    assert_eq!(parse_server_tool(&args(&["a/b/c"])), ("a".to_string(), Some("b/c".to_string())));
    assert_eq!(parse_server_tool(&args(&["a/"])), ("a".to_string(), None));
    assert_eq!(parse_server_tool(&args(&["a", "b", "c"])), ("a".to_string(), Some("b".to_string())));
}

#[test]
fn targets_and_messages() {
    assert_eq!(target_of(&Some("s".to_string()), &Some("t".to_string())), "s/t");
    assert_eq!(target_of(&Some("s".to_string()), &None), "s");
    assert!(info_without_server_message(&[]).contains("Available servers: (none found)"));
    assert!(info_without_server_message(&args(&["a", "b"])).contains("Available servers: a, b"));
    assert_eq!(version_message("0.3.0"), "mcp-cli v0.3.0");
    assert!(help_message("0.3.0").starts_with("mcp-cli v0.3.0 - A lightweight CLI for MCP servers\n\nUsage:"));
}

#[test]
fn info_forms_agree() {
    let a = run(&["info", "fs/read_file"]);
    let b = run(&["info", "fs", "read_file"]);
    assert_eq!((a.command, a.server, a.tool), (b.command, b.server, b.tool));
}
