//! The command line: options, subcommands and the mistakes the tool explains.
use crate::errors::{
    ambiguous_command_error, ambiguous_command_view, missing_argument_error, missing_argument_view,
    too_many_arguments_error, too_many_arguments_view, unknown_option_error, unknown_option_view,
    unknown_subcommand_error, unknown_subcommand_view, CliError, CliErrorView,
};
use crate::matching::{regex_compiles, regex_is_match, regex_match};
use crate::text::{
    cat2, cat3, chars_of, contains_char, find_char, first_index_of, join, join_strings, lemma_first_index_of,
    lemma_first_index_of_none, lowercase,
    opt_view, split, split_string, starts_with_char, str_eq, string_of, substring, to_lowercase,
    views,
};
use vstd::prelude::*;
use vstd::string::*;

verus! {

/// What the command line asks for.
pub struct ParsedArgs {
    /// One of `list`, `info`, `grep`, `call`, `help`, `version`.
    pub command: String,
    pub server: Option<String>,
    pub tool: Option<String>,
    pub pattern: Option<String>,
    pub args: Option<String>,
    pub with_descriptions: bool,
    pub config_path: Option<String>,
}

/// The model of [`ParsedArgs`]: its texts as character sequences.
pub struct ParsedArgsView {
    pub command: Seq<char>,
    pub server: Option<Seq<char>>,
    pub tool: Option<Seq<char>>,
    pub pattern: Option<Seq<char>>,
    pub args: Option<Seq<char>>,
    pub with_descriptions: bool,
    pub config_path: Option<Seq<char>>,
}

impl View for ParsedArgs {
    type V = ParsedArgsView;

    open spec fn view(&self) -> ParsedArgsView {
        ParsedArgsView {
            command: self.command@,
            server: opt_view(self.server),
            tool: opt_view(self.tool),
            pattern: opt_view(self.pattern),
            args: opt_view(self.args),
            with_descriptions: self.with_descriptions,
            config_path: opt_view(self.config_path),
        }
    }
}

/// The outcome of reading the command line.
pub enum CliParse {
    /// A command to run.
    Run(ParsedArgs),
    /// A mistake, reported with this error.
    Fail(CliError),
    /// `info` without a server: the configured servers are listed with the
    /// complaint, so the configuration at this path (or the default one)
    /// must be read first.
    InfoWithoutServer(Option<String>),
}

/// The model of [`CliParse`].
pub enum CliParseView {
    Run(ParsedArgsView),
    Fail(CliErrorView),
    InfoWithoutServer(Option<Seq<char>>),
}

impl View for CliParse {
    type V = CliParseView;

    open spec fn view(&self) -> CliParseView {
        match self {
            CliParse::Run(p) => CliParseView::Run(p@),
            CliParse::Fail(e) => CliParseView::Fail(e@),
            CliParse::InfoWithoutServer(c) => CliParseView::InfoWithoutServer(opt_view(*c)),
        }
    }
}

/// A command with only a name and the common options.
pub open spec fn plain_command(command: Seq<char>, with_descriptions: bool, config_path: Option<Seq<char>>) -> ParsedArgsView {
    ParsedArgsView {
        command,
        server: None,
        tool: None,
        pattern: None,
        args: None,
        with_descriptions,
        config_path,
    }
}

/// The state after reading the options: stopped with an outcome, or done
/// with the options and the positional arguments in order.
pub enum ScanView {
    Stop(CliParseView),
    Done(bool, Option<Seq<char>>, Seq<Seq<char>>),
}

/// Reads the options from `args[i]` on. `-h`/`--help` and `-v`/`--version`
/// end the reading, `-d` turns descriptions on, `-c <path>` names the
/// configuration (the last one counts), any other word starting with `-`
/// (except `-` itself) is an unknown option, and the rest are positional.
pub open spec fn scan_options(
    args: Seq<Seq<char>>,
    i: int,
    with_descriptions: bool,
    config_path: Option<Seq<char>>,
    positional: Seq<Seq<char>>,
) -> ScanView
    decreases args.len() - i,
{
    if i < 0 || i >= args.len() {
        ScanView::Done(with_descriptions, config_path, positional)
    } else {
        let a = args[i];
        if a == "-h"@ || a == "--help"@ {
            ScanView::Stop(CliParseView::Run(plain_command("help"@, false, None)))
        } else if a == "-v"@ || a == "--version"@ {
            ScanView::Stop(CliParseView::Run(plain_command("version"@, false, None)))
        } else if a == "-d"@ || a == "--with-descriptions"@ {
            scan_options(args, i + 1, true, config_path, positional)
        } else if a == "-c"@ || a == "--config"@ {
            if i + 1 >= args.len() {
                ScanView::Stop(CliParseView::Fail(missing_argument_view("-c/--config"@, "path"@)))
            } else {
                scan_options(args, i + 2, with_descriptions, Some(args[i + 1]), positional)
            }
        } else if a.len() > 0 && a[0] == '-' && a != "-"@ {
            ScanView::Stop(CliParseView::Fail(unknown_option_view(a)))
        } else {
            scan_options(args, i + 1, with_descriptions, config_path, positional.push(a))
        }
    }
}

/// The server and tool named by the first arguments: `server/tool` in one
/// word (the tool only where something follows the first `/`), or
/// `server tool` in two.
pub open spec fn server_tool(args: Seq<Seq<char>>) -> (Seq<char>, Option<Seq<char>>) {
    if args.len() == 0 {
        (seq![], None)
    } else {
        let first = args[0];
        match first_index_of(first, '/') {
            Some(k) => (
                first.take(k),
                if first.len() > k + 1 {
                    Some(first.skip(k + 1))
                } else {
                    None
                },
            ),
            None => (
                first,
                if args.len() > 1 {
                    Some(args[1])
                } else {
                    None
                },
            ),
        }
    }
}

/// The words that suggest a mistaken subcommand.
pub open spec fn is_subcommand_alias(lower: Seq<char>) -> bool {
    lower == "run"@ || lower == "execute"@ || lower == "exec"@ || lower == "invoke"@ || lower
        == "list"@ || lower == "ls"@ || lower == "get"@ || lower == "show"@ || lower
        == "describe"@ || lower == "search"@ || lower == "find"@ || lower == "query"@
}

/// The regex that a tool name is expected to match.
pub open spec fn tool_name_regex() -> Seq<char> {
    "^[a-zA-Z_][a-zA-Z0-9_-]*$"@
}

/// The word looks like a tool name.
pub open spec fn looks_like_tool_name(word: Seq<char>) -> bool {
    regex_compiles(tool_name_regex(), false) && regex_match(tool_name_regex(), word, false)
}

/// The outcome for `call` with the words after it.
pub open spec fn call_outcome(remaining: Seq<Seq<char>>, with_descriptions: bool, config_path: Option<Seq<char>>) -> CliParseView {
    if remaining.len() == 0 {
        CliParseView::Fail(missing_argument_view("call"@, "server and tool"@))
    } else {
        let (server, tool) = server_tool(remaining);
        if tool is None {
            CliParseView::Fail(missing_argument_view("call"@, "tool"@))
        } else {
            let start: int = if remaining[0].contains('/') {
                1
            } else {
                2
            };
            let json_args = remaining.skip(start);
            let args = if json_args.len() > 0 && join(json_args, " "@) != "-"@ {
                Some(join(json_args, " "@))
            } else {
                None
            };
            CliParseView::Run(
                ParsedArgsView {
                    command: "call"@,
                    server: Some(server),
                    tool,
                    pattern: None,
                    args,
                    with_descriptions,
                    config_path,
                },
            )
        }
    }
}

/// What the positional arguments ask for, after the options were read.
pub open spec fn positional_outcome(
    positional: Seq<Seq<char>>,
    with_descriptions: bool,
    config_path: Option<Seq<char>>,
) -> CliParseView {
    if positional.len() == 0 {
        CliParseView::Run(plain_command("list"@, with_descriptions, config_path))
    } else {
        let first = positional[0];
        if first == "info"@ {
            let (server, tool) = server_tool(positional.skip(1));
            if server.len() == 0 {
                CliParseView::InfoWithoutServer(config_path)
            } else {
                CliParseView::Run(
                    ParsedArgsView {
                        command: "info"@,
                        server: Some(server),
                        tool,
                        pattern: None,
                        args: None,
                        with_descriptions,
                        config_path,
                    },
                )
            }
        } else if first == "grep"@ {
            if positional.len() < 2 {
                CliParseView::Fail(missing_argument_view("grep"@, "pattern"@))
            } else if positional.len() > 2 {
                CliParseView::Fail(
                    too_many_arguments_view("grep"@, (positional.len() - 1) as nat, 1),
                )
            } else {
                CliParseView::Run(
                    ParsedArgsView {
                        command: "grep"@,
                        server: None,
                        tool: None,
                        pattern: Some(positional[1]),
                        args: None,
                        with_descriptions,
                        config_path,
                    },
                )
            }
        } else if first == "call"@ {
            call_outcome(positional.skip(1), with_descriptions, config_path)
        } else if is_subcommand_alias(lowercase(first)) {
            CliParseView::Fail(unknown_subcommand_view(first))
        } else if first.contains('/') {
            let parts = split(first, '/');
            CliParseView::Fail(ambiguous_command_view(parts[0], parts[1], positional.len() > 1))
        } else if positional.len() >= 2 && !(positional[1].len() > 0 && (positional[1][0] == '{'
            || positional[1][0] == '[')) && looks_like_tool_name(positional[1]) {
            CliParseView::Fail(
                ambiguous_command_view(positional[0], positional[1], positional.len() > 2),
            )
        } else {
            CliParseView::Run(
                ParsedArgsView {
                    command: "info"@,
                    server: Some(first),
                    tool: None,
                    pattern: None,
                    args: None,
                    with_descriptions,
                    config_path,
                },
            )
        }
    }
}

/// What the command line (without the program name) asks for.
pub open spec fn cli_outcome(args: Seq<Seq<char>>) -> CliParseView {
    match scan_options(args, 0, false, None, seq![]) {
        ScanView::Stop(o) => o,
        ScanView::Done(with_descriptions, config_path, positional) => positional_outcome(
            positional,
            with_descriptions,
            config_path,
        ),
    }
}

/// Whether a word is a common mistaken subcommand (in any case).
pub fn is_possible_subcommand(arg: &str) -> (r: bool)
    ensures
        r == is_subcommand_alias(lowercase(arg@)),
{
    let lower_string = to_lowercase(arg);
    let lower = lower_string.as_str();
    str_eq(lower, "run") || str_eq(lower, "execute") || str_eq(lower, "exec") || str_eq(
        lower,
        "invoke",
    ) || str_eq(lower, "list") || str_eq(lower, "ls") || str_eq(lower, "get") || str_eq(
        lower,
        "show",
    ) || str_eq(lower, "describe") || str_eq(lower, "search") || str_eq(lower, "find") || str_eq(
        lower,
        "query",
    )
}

/// The server and tool named by the first arguments.
pub fn parse_server_tool(args: &[String]) -> (r: (String, Option<String>))
    ensures
        r.0@ == server_tool(views(args@)).0,
        opt_view(r.1) == server_tool(views(args@)).1,
{
    if args.len() == 0 {
        return (String::new(), None);
    }
    let first = args[0].as_str();
    assert(views(args@)[0] == first@);
    match find_char(first, '/') {
        Some(k) => {
            let n = chars_of(first).len();
            let server = substring(first, 0, k);
            assert(first@.subrange(0, k as int) == first@.take(k as int));
            let tool = if n > k + 1 {
                let t = substring(first, k + 1, n);
                assert(first@.subrange(k + 1, n as int) == first@.skip(k + 1));
                Some(t)
            } else {
                None
            };
            (server, tool)
        },
        None => {
            let tool = if args.len() > 1 {
                assert(views(args@)[1] == args@[1]@);
                Some(args[1].clone())
            } else {
                None
            };
            (args[0].clone(), tool)
        },
    }
}

/// A `list`, `help` or `version` command.
fn plain(command: &str, with_descriptions: bool, config_path: Option<String>) -> (r: ParsedArgs)
    ensures
        r@ == plain_command(command@, with_descriptions, opt_view(config_path)),
{
    ParsedArgs {
        command: string_of(command),
        server: None,
        tool: None,
        pattern: None,
        args: None,
        with_descriptions,
        config_path,
    }
}

/// The outcome for `call` with the words after it.
fn parse_call(remaining: &[String], with_descriptions: bool, config_path: Option<String>) -> (r: CliParse)
    ensures
        r@ == call_outcome(views(remaining@), with_descriptions, opt_view(config_path)),
{
    if remaining.len() == 0 {
        return CliParse::Fail(missing_argument_error("call", "server and tool"));
    }
    let (server, tool) = parse_server_tool(remaining);
    if tool.is_none() {
        return CliParse::Fail(missing_argument_error("call", "tool"));
    }
    assert(views(remaining@)[0] == remaining@[0]@);
    let start: usize = if contains_char(remaining[0].as_str(), '/') {
        1
    } else {
        2
    };
    assert(start <= remaining.len()) by {
        if !remaining@[0]@.contains('/') {
            assert(first_index_of(remaining@[0]@, '/') is None);
        }
    }
    let mut json_args: Vec<String> = Vec::new();
    let mut i = start;
    while i < remaining.len()
        invariant
            start <= i <= remaining.len(),
            json_args@ == remaining@.subrange(start as int, i as int),
        decreases remaining.len() - i,
    {
        json_args.push(remaining[i].clone());
        assert(json_args@ == remaining@.subrange(start as int, i + 1));
        i = i + 1;
    }
    assert(views(json_args@) == views(remaining@).skip(start as int));
    let args = if json_args.len() > 0 {
        let value = join_strings(json_args.as_slice(), " ");
        if !str_eq(value.as_str(), "-") {
            Some(value)
        } else {
            None
        }
    } else {
        None
    };
    CliParse::Run(
        ParsedArgs {
            command: string_of("call"),
            server: Some(server),
            tool,
            pattern: None,
            args,
            with_descriptions,
            config_path,
        },
    )
}

/// The outcome for the positional arguments, after the options were read.
pub fn parse_positional(positional: &[String], with_descriptions: bool, config_path: Option<String>) -> (r: CliParse)
    ensures
        r@ == positional_outcome(views(positional@), with_descriptions, opt_view(config_path)),
{
    if positional.len() == 0 {
        return CliParse::Run(plain("list", with_descriptions, config_path));
    }
    let first = positional[0].as_str();
    assert(views(positional@)[0] == first@);
    let ghost rest = views(positional@).skip(1);
    let mut remaining: Vec<String> = Vec::new();
    let mut i: usize = 1;
    while i < positional.len()
        invariant
            1 <= i <= positional.len(),
            remaining@ == positional@.subrange(1, i as int),
        decreases positional.len() - i,
    {
        remaining.push(positional[i].clone());
        assert(remaining@ == positional@.subrange(1, i + 1));
        i = i + 1;
    }
    assert(views(remaining@) == rest);
    if str_eq(first, "info") {
        let (server, tool) = parse_server_tool(remaining.as_slice());
        if server.as_str().is_empty() {
            return CliParse::InfoWithoutServer(config_path);
        }
        return CliParse::Run(
            ParsedArgs {
                command: string_of("info"),
                server: Some(server),
                tool,
                pattern: None,
                args: None,
                with_descriptions,
                config_path,
            },
        );
    }
    if str_eq(first, "grep") {
        if positional.len() < 2 {
            return CliParse::Fail(missing_argument_error("grep", "pattern"));
        }
        if positional.len() > 2 {
            return CliParse::Fail(too_many_arguments_error("grep", positional.len() - 1, 1));
        }
        assert(views(positional@)[1] == positional@[1]@);
        return CliParse::Run(
            ParsedArgs {
                command: string_of("grep"),
                server: None,
                tool: None,
                pattern: Some(positional[1].clone()),
                args: None,
                with_descriptions,
                config_path,
            },
        );
    }
    if str_eq(first, "call") {
        return parse_call(remaining.as_slice(), with_descriptions, config_path);
    }
    if is_possible_subcommand(first) {
        return CliParse::Fail(unknown_subcommand_error(first));
    }
    if contains_char(first, '/') {
        let parts = split_string(first, '/');
        proof {
            lemma_split_has_two(first@, '/');
        }
        assert(views(parts@)[0] == parts@[0]@);
        assert(views(parts@)[1] == parts@[1]@);
        return CliParse::Fail(
            ambiguous_command_error(parts[0].as_str(), parts[1].as_str(), positional.len() > 1),
        );
    }
    if positional.len() >= 2 {
        let possible_tool = positional[1].as_str();
        assert(views(positional@)[1] == possible_tool@);
        let looks_like_json = starts_with_char(possible_tool, '{') || starts_with_char(
            possible_tool,
            '[',
        );
        let looks_like_tool = match regex_is_match(
            "^[a-zA-Z_][a-zA-Z0-9_-]*$",
            possible_tool,
            false,
        ) {
            Some(b) => b,
            None => false,
        };
        if !looks_like_json && looks_like_tool {
            return CliParse::Fail(
                ambiguous_command_error(first, possible_tool, positional.len() > 2),
            );
        }
    }
    CliParse::Run(
        ParsedArgs {
            command: string_of("info"),
            server: Some(positional[0].clone()),
            tool: None,
            pattern: None,
            args: None,
            with_descriptions,
            config_path,
        },
    )
}

/// Reading the options from `i` on looks only at the arguments from `i` on.
proof fn lemma_scan_reads_from(
    a: Seq<Seq<char>>,
    b: Seq<Seq<char>>,
    i: int,
    with_descriptions: bool,
    config_path: Option<Seq<char>>,
    positional: Seq<Seq<char>>,
)
    requires
        a.len() == b.len(),
        forall|j: int| i <= j < a.len() ==> a[j] == b[j],
    ensures
        scan_options(a, i, with_descriptions, config_path, positional) == scan_options(
            b,
            i,
            with_descriptions,
            config_path,
            positional,
        ),
    decreases a.len() - i,
{
    if 0 <= i < a.len() {
        lemma_scan_reads_from(a, b, i + 1, true, config_path, positional);
        lemma_scan_reads_from(a, b, i + 1, with_descriptions, config_path, positional.push(a[i]));
        if i + 1 < a.len() {
            lemma_scan_reads_from(a, b, i + 2, with_descriptions, Some(a[i + 1]), positional);
        }
    }
}

/// Law: `--config <path>` and `-c <path>` mean the same, whatever follows
/// them; and either alone asks for the listing with the configuration at
/// that path.
pub proof fn law_config_option_forms(path: Seq<char>, rest: Seq<Seq<char>>)
    ensures
        cli_outcome(seq!["--config"@, path] + rest) == cli_outcome(seq!["-c"@, path] + rest),
        cli_outcome(seq!["--config"@, path]) == CliParseView::Run(
            ParsedArgsView {
                command: "list"@,
                server: None,
                tool: None,
                pattern: None,
                args: None,
                with_descriptions: false,
                config_path: Some(path),
            },
        ),
{
    reveal_strlit("-h");
    reveal_strlit("--help");
    reveal_strlit("-v");
    reveal_strlit("--version");
    reveal_strlit("-d");
    reveal_strlit("--with-descriptions");
    reveal_strlit("-c");
    reveal_strlit("--config");
    let long = seq!["--config"@, path] + rest;
    let short = seq!["-c"@, path] + rest;
    assert(long[0] == "--config"@ && short[0] == "-c"@ && long[1] == path && short[1] == path);
    assert("--config"@ != "-h"@ && "--config"@ != "--help"@ && "--config"@ != "-v"@ && "--config"@
        != "--version"@ && "--config"@ != "-d"@ && "--config"@ != "--with-descriptions"@) by {
        assert("--config"@.len() == 8);
        assert("--config"@[2] == 'c');
    }
    assert("-c"@ != "-h"@ && "-c"@ != "--help"@ && "-c"@ != "-v"@ && "-c"@ != "--version"@ && "-c"@
        != "-d"@ && "-c"@ != "--with-descriptions"@) by {
        assert("-c"@.len() == 2);
        assert("-c"@[1] == 'c');
    }
    assert(scan_options(long, 0, false, None, seq![]) == scan_options(long, 2, false, Some(path), seq![]));
    assert(scan_options(short, 0, false, None, seq![]) == scan_options(short, 2, false, Some(path), seq![]));
    assert forall|j: int| 2 <= j < long.len() implies long[j] == short[j] by {}
    lemma_scan_reads_from(long, short, 2, false, Some(path), seq![]);
    let alone = seq!["--config"@, path];
    assert(scan_options(alone, 0, false, None, seq![]) == scan_options(alone, 2, false, Some(path), seq![]));
}

/// A word that does not start with `-` is read as a positional argument.
proof fn lemma_plain_word(w: Seq<char>)
    requires
        w.len() > 0,
        w[0] != '-',
    ensures
        w != "-h"@ && w != "--help"@ && w != "-v"@ && w != "--version"@ && w != "-d"@ && w
            != "--with-descriptions"@ && w != "-c"@ && w != "--config"@,
        !(w.len() > 0 && w[0] == '-' && w != "-"@),
{
    reveal_strlit("-h");
    reveal_strlit("--help");
    reveal_strlit("-v");
    reveal_strlit("--version");
    reveal_strlit("-d");
    reveal_strlit("--with-descriptions");
    reveal_strlit("-c");
    reveal_strlit("--config");
}

/// Law: `info server/tool` and `info server tool` ask for the same thing,
/// the details of that tool, for a server name without `/` and words that
/// are not options.
pub proof fn law_info_forms_agree(server: Seq<char>, tool: Seq<char>)
    requires
        server.len() > 0,
        tool.len() > 0,
        forall|i: int| 0 <= i < server.len() ==> server[i] != '/',
        server[0] != '-',
        tool[0] != '-',
    ensures
        cli_outcome(seq!["info"@, server + "/"@ + tool]) == cli_outcome(seq!["info"@, server, tool]),
        cli_outcome(seq!["info"@, server, tool]) == CliParseView::Run(
            ParsedArgsView {
                command: "info"@,
                server: Some(server),
                tool: Some(tool),
                pattern: None,
                args: None,
                with_descriptions: false,
                config_path: None,
            },
        ),
{
    reveal_strlit("info");
    reveal_strlit("/");
    let info = "info"@;
    let joined = server + "/"@ + tool;
    assert(joined[0] == server[0]);
    lemma_plain_word(info);
    lemma_plain_word(server);
    lemma_plain_word(tool);
    lemma_plain_word(joined);

    let spaced = seq![info, server, tool];
    assert(scan_options(spaced, 3, false, None, seq![info, server, tool]) == ScanView::Done(
        false,
        None,
        seq![info, server, tool],
    ));
    assert(seq![info].push(server) == seq![info, server]);
    assert(seq![info, server].push(tool) == seq![info, server, tool]);
    assert(Seq::<Seq<char>>::empty().push(info) == seq![info]);
    assert(scan_options(spaced, 2, false, None, seq![info, server]) == ScanView::Done(
        false,
        None,
        seq![info, server, tool],
    ));
    assert(scan_options(spaced, 1, false, None, seq![info]) == ScanView::Done(
        false,
        None,
        seq![info, server, tool],
    ));
    assert(scan_options(spaced, 0, false, None, seq![]) == ScanView::Done(
        false,
        None,
        seq![info, server, tool],
    ));
    lemma_first_index_of_none(server, '/');
    assert(seq![info, server, tool].skip(1) == seq![server, tool]);

    let slashed = seq![info, joined];
    assert(seq![info].push(joined) == seq![info, joined]);
    assert(scan_options(slashed, 2, false, None, seq![info, joined]) == ScanView::Done(
        false,
        None,
        seq![info, joined],
    ));
    assert(scan_options(slashed, 1, false, None, seq![info]) == ScanView::Done(
        false,
        None,
        seq![info, joined],
    ));
    assert(scan_options(slashed, 0, false, None, seq![]) == ScanView::Done(
        false,
        None,
        seq![info, joined],
    ));
    assert(seq![info, joined].skip(1) == seq![joined]);
    assert(joined[server.len() as int] == '/');
    assert forall|j: int| 0 <= j < server.len() implies joined[j] != '/' by {
        assert(joined[j] == server[j]);
    }
    lemma_first_index_of(joined, '/', server.len() as int);
    assert(joined.take(server.len() as int) == server);
    assert(joined.skip(server.len() as int + 1) == tool);
}

/// Splitting at a character that occurs gives at least two pieces.
pub proof fn lemma_split_has_two(s: Seq<char>, c: char)
    requires
        s.contains(c),
    ensures
        split(s, c).len() >= 2,
{
    lemma_split_state_count(s, c);
}

/// Every occurrence of the separator finishes one piece.
proof fn lemma_split_state_count(s: Seq<char>, c: char)
    ensures
        s.contains(c) ==> crate::text::split_state(s, c).0.len() >= 1,
    decreases s.len(),
{
    if s.len() > 0 {
        lemma_split_state_count(s.drop_last(), c);
        if s.contains(c) && s.last() != c {
            let j = choose|j: int| 0 <= j < s.len() && s[j] == c;
            assert(j < s.len() - 1);
            assert(s.drop_last()[j] == c);
        }
    }
}

/// Reads the command line (without the program name).
pub fn parse_cli_args(args: &[String]) -> (r: CliParse)
    ensures
        r@ == cli_outcome(views(args@)),
{
    let mut with_descriptions = false;
    let mut config_path: Option<String> = None;
    let mut positional: Vec<String> = Vec::new();
    let mut i: usize = 0;
    assert(views(positional@) =~= Seq::<Seq<char>>::empty());
    while i < args.len()
        invariant
            i <= args.len(),
            scan_options(views(args@), i as int, with_descriptions, opt_view(config_path), views(positional@))
                == scan_options(views(args@), 0, false, None, seq![]),
        decreases args.len() - i,
    {
        let arg = args[i].as_str();
        assert(views(args@)[i as int] == arg@);
        if str_eq(arg, "-h") || str_eq(arg, "--help") {
            return CliParse::Run(plain("help", false, None));
        } else if str_eq(arg, "-v") || str_eq(arg, "--version") {
            return CliParse::Run(plain("version", false, None));
        } else if str_eq(arg, "-d") || str_eq(arg, "--with-descriptions") {
            with_descriptions = true;
            i = i + 1;
        } else if str_eq(arg, "-c") || str_eq(arg, "--config") {
            if i + 1 >= args.len() {
                return CliParse::Fail(missing_argument_error("-c/--config", "path"));
            }
            assert(views(args@)[i + 1] == args@[i + 1]@);
            config_path = Some(args[i + 1].clone());
            i = i + 2;
        } else {
            if starts_with_char(arg, '-') && !str_eq(arg, "-") {
                return CliParse::Fail(unknown_option_error(arg));
            }
            let ghost before = positional@;
            positional.push(args[i].clone());
            assert(views(positional@) == views(before).push(arg@));
            i = i + 1;
        }
    }
    parse_positional(positional.as_slice(), with_descriptions, config_path)
}

/// The target of `info` or `call`: the server, then `/` and the tool where
/// one is named.
pub open spec fn target_text(server: Option<Seq<char>>, tool: Option<Seq<char>>) -> Seq<char> {
    match server {
        Some(s) => match tool {
            Some(t) => s + "/"@ + t,
            None => s,
        },
        None => seq![],
    }
}

/// The target text of `info` or `call` from the parsed server and tool.
pub fn target_of(server: &Option<String>, tool: &Option<String>) -> (r: String)
    ensures
        r@ == target_text(opt_view(*server), opt_view(*tool)),
{
    match server {
        Some(s) => match tool {
            Some(t) => cat3(s.as_str(), "/", t.as_str()),
            None => s.clone(),
        },
        None => String::new(),
    }
}

/// The lines shown for `info` without a server.
pub open spec fn info_without_server_text(available: Seq<Seq<char>>) -> Seq<char> {
    "Error [MISSING_ARGUMENT]: Missing required argument for info: server\n  Available servers: "@
        + (if available.len() > 0 {
        join(available, ", "@)
    } else {
        "(none found)"@
    })
        + "\n  Suggestion: Use 'mcp-cli info <server>' to see server details, or just 'mcp-cli' to list all"@
}

/// The message for `info` without a server, listing the configured servers.
pub fn info_without_server_message(available: &[String]) -> (r: String)
    ensures
        r@ == info_without_server_text(views(available@)),
{
    let list = if available.len() > 0 {
        join_strings(available, ", ")
    } else {
        string_of("(none found)")
    };
    cat3(
        "Error [MISSING_ARGUMENT]: Missing required argument for info: server\n  Available servers: ",
        list.as_str(),
        "\n  Suggestion: Use 'mcp-cli info <server>' to see server details, or just 'mcp-cli' to list all",
    )
}

/// The usage text, naming `version`.
pub open spec fn help_text(version: Seq<char>) -> Seq<char> {
    "mcp-cli v"@ + version + HELP_BODY@
}

/// The usage text after the program name and version.
pub const HELP_BODY: &'static str = " - A lightweight CLI for MCP servers

Usage:
  mcp-cli [options]                              List all servers and tools
  mcp-cli [options] info <server>                Show server details
  mcp-cli [options] info <server> <tool>         Show tool schema
  mcp-cli [options] grep <pattern>               Search tools by glob pattern
  mcp-cli [options] call <server> <tool>         Call tool (reads JSON from stdin if no args)
  mcp-cli [options] call <server> <tool> <json>  Call tool with JSON arguments

Formats (both work):
  mcp-cli info server tool                       Space-separated
  mcp-cli info server/tool                       Slash-separated
  mcp-cli call server tool '{}'                  Space-separated
  mcp-cli call server/tool '{}'                  Slash-separated

Options:
  -h, --help               Show this help message
  -v, --version            Show version number
  -d, --with-descriptions  Include tool descriptions
  -c, --config <path>      Path to mcp_servers.json config file

Output:
  mcp-cli/info/grep        Human-readable text to stdout
  call                     Raw JSON to stdout (for piping)
  Errors                   Always to stderr

Examples:
  mcp-cli                                        # List all servers
  mcp-cli -d                                     # List with descriptions
  mcp-cli grep \"*file*\"                          # Search for file tools
  mcp-cli info filesystem                        # Show server tools
  mcp-cli info filesystem read_file              # Show tool schema
  mcp-cli call filesystem read_file '{}'         # Call tool
  cat input.json | mcp-cli call server tool      # Read from stdin (no '-' needed)

Environment Variables:
  MCP_NO_DAEMON=1        Disable connection caching (force fresh connections)
  MCP_DAEMON_TIMEOUT=N   Set daemon idle timeout in seconds (default: 60)

Config File:
  The CLI looks for mcp_servers.json in:
    1. Path specified by MCP_CONFIG_PATH or -c/--config
    2. ./mcp_servers.json (current directory)
    3. ~/.mcp_servers.json
    4. ~/.config/mcp/mcp_servers.json";

/// The usage text for the given version.
pub fn help_message(version: &str) -> (r: String)
    ensures
        r@ == help_text(version@),
{
    cat3("mcp-cli v", version, HELP_BODY)
}

/// The version line.
pub fn version_message(version: &str) -> (r: String)
    ensures
        r@ == "mcp-cli v"@ + version@,
{
    cat2("mcp-cli v", version)
}

} // verus!
