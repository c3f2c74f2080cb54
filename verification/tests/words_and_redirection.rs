use minishell::dispatch::parse_command;
use minishell::redirection::operator_of;
use minishell::redirection::resolve;
use minishell::redirection::Redirection;
use minishell::redirection::RedirectionKind;
use minishell::words::tokenize;
use minishell::words::words;
use minishell::words::MalformedQuoting;

fn strings(items: &[&str]) -> Vec<String> {
    items.iter().map(|s| s.to_string()).collect()
}

#[test]
fn testing() {
    let command = String::from("echo hello hello > output.txt");

    let whole_command = words(&command);
    assert_eq!(whole_command, strings(&["echo", "hello", "hello", ">", "output.txt"]));
    let command = whole_command.first().unwrap();
    let arguments = whole_command[1..].to_vec();

    let (from_content, redirection) = resolve(&arguments);
    let to_file = redirection.unwrap().target;

    assert_eq!(to_file, "output.txt");
    assert_eq!(from_content, strings(&["hello", "hello"]));
    assert_eq!(arguments, strings(&["hello", "hello", ">", "output.txt"]));
    assert_eq!(command, "echo");
}

#[test]
fn tokenize_splits_on_white_space() {
    assert_eq!(tokenize("echo  a\tb"), Ok(strings(&["echo", "a", "b"])));
}

#[test]
fn tokenize_drops_white_space_at_the_ends() {
    assert_eq!(tokenize("  \r\n echo hi \u{a0}"), Ok(strings(&["echo", "hi"])));
}

#[test]
fn tokenize_honours_quotes_and_backslashes() {
    assert_eq!(
        tokenize("echo 'a  b' \"c d\" e\\ f"),
        Ok(strings(&["echo", "a  b", "c d", "e f"]))
    );
}

#[test]
fn tokenize_of_an_empty_line_has_no_words() {
    assert_eq!(tokenize(""), Ok(Vec::<String>::new()));
    assert_eq!(tokenize("   "), Ok(Vec::<String>::new()));
}

#[test]
fn tokenize_rejects_an_open_quotation() {
    assert_eq!(tokenize("echo 'abc"), Err(MalformedQuoting));
    assert_eq!(tokenize("echo \"abc"), Err(MalformedQuoting));
    assert_eq!(tokenize("echo abc\\"), Err(MalformedQuoting));
}

#[test]
fn words_of_a_malformed_line_are_none() {
    assert_eq!(words("echo 'abc"), Vec::<String>::new());
    assert_eq!(words("echo abc"), strings(&["echo", "abc"]));
}

#[test]
fn operators_are_told_apart() {
    assert_eq!(operator_of(">"), Some(RedirectionKind::Stdout));
    assert_eq!(operator_of("1>"), Some(RedirectionKind::Stdout));
    assert_eq!(operator_of("2>"), Some(RedirectionKind::Stderr));
    assert_eq!(operator_of(">>"), Some(RedirectionKind::AppendStdout));
    assert_eq!(operator_of("1>>"), Some(RedirectionKind::AppendStdout));
    assert_eq!(operator_of("2>>"), Some(RedirectionKind::AppendStderr));
    assert_eq!(operator_of("3>"), None);
    assert_eq!(operator_of(">>>"), None);
    assert_eq!(operator_of(""), None);
    assert_eq!(operator_of("a>"), None);
}

#[test]
fn kinds_know_their_stream_and_mode() {
    assert!(RedirectionKind::Stdout.takes_stdout());
    assert!(RedirectionKind::AppendStdout.takes_stdout());
    assert!(!RedirectionKind::Stderr.takes_stdout());
    assert!(!RedirectionKind::AppendStderr.takes_stdout());
    assert!(!RedirectionKind::Stdout.is_append());
    assert!(!RedirectionKind::Stderr.is_append());
    assert!(RedirectionKind::AppendStdout.is_append());
    assert!(RedirectionKind::AppendStderr.is_append());
}

#[test]
fn resolve_without_operators_changes_nothing() {
    let args = strings(&["a", "b c", "", "-n", "1", "2"]);
    assert_eq!(resolve(&args), (args.clone(), None));
    let none: Vec<String> = Vec::new();
    assert_eq!(resolve(&none), (none.clone(), None));
}

#[test]
fn resolve_takes_each_kind() {
    let cases = [
        (">", RedirectionKind::Stdout),
        ("1>", RedirectionKind::Stdout),
        ("2>", RedirectionKind::Stderr),
        (">>", RedirectionKind::AppendStdout),
        ("1>>", RedirectionKind::AppendStdout),
        ("2>>", RedirectionKind::AppendStderr),
    ];
    for (op, kind) in cases {
        let args = strings(&["x", "y", op, "file", "rest"]);
        assert_eq!(
            resolve(&args),
            (strings(&["x", "y"]), Some(Redirection { kind, target: "file".to_string() }))
        );
    }
}

#[test]
fn resolve_ignores_an_operator_without_a_target() {
    let args = strings(&["x", ">"]);
    assert_eq!(resolve(&args), (args.clone(), None));
}

#[test]
fn resolve_goes_by_the_first_operator_of_a_kind() {
    let args = strings(&["x", ">", "one", "1>", "two"]);
    assert_eq!(
        resolve(&args),
        (
            strings(&["x"]),
            Some(Redirection { kind: RedirectionKind::Stdout, target: "one".to_string() })
        )
    );
    let args = strings(&["x", ">", "one", ">"]);
    assert_eq!(
        resolve(&args),
        (
            strings(&["x"]),
            Some(Redirection { kind: RedirectionKind::Stdout, target: "one".to_string() })
        )
    );
}

#[test]
fn resolve_lets_the_later_kind_win() {
    let args = strings(&["x", "2>>", "errs", "y", ">", "out"]);
    assert_eq!(
        resolve(&args),
        (
            strings(&["x"]),
            Some(Redirection { kind: RedirectionKind::AppendStderr, target: "errs".to_string() })
        )
    );
    let args = strings(&["x", ">", "out", "2>", "errs"]);
    assert_eq!(
        resolve(&args),
        (
            strings(&["x", ">", "out"]),
            Some(Redirection { kind: RedirectionKind::Stderr, target: "errs".to_string() })
        )
    );
    let args = strings(&["x", ">>", "more", ">", "out"]);
    assert_eq!(
        resolve(&args),
        (
            strings(&["x"]),
            Some(Redirection { kind: RedirectionKind::AppendStdout, target: "more".to_string() })
        )
    );
}

#[test]
fn resolve_keeps_an_earlier_kind_where_a_later_one_has_no_target() {
    let args = strings(&["x", ">", "out", "2>"]);
    assert_eq!(
        resolve(&args),
        (
            strings(&["x"]),
            Some(Redirection { kind: RedirectionKind::Stdout, target: "out".to_string() })
        )
    );
}

#[test]
fn parse_command_of_no_words_is_none() {
    assert_eq!(parse_command(&Vec::new()), None);
}

#[test]
fn parse_command_splits_head_arguments_and_redirection() {
    let parsed = parse_command(&strings(&["echo", "hello", "hello", ">", "output.txt"]));
    let (cmd, redirection) = parsed.unwrap();
    assert_eq!(cmd.head, "echo");
    assert_eq!(cmd.args, strings(&["hello", "hello"]));
    assert_eq!(
        redirection,
        Some(Redirection { kind: RedirectionKind::Stdout, target: "output.txt".to_string() })
    );
    let (cmd, redirection) = parse_command(&strings(&["ls"])).unwrap();
    assert_eq!(cmd.head, "ls");
    assert_eq!(cmd.args, Vec::<String>::new());
    assert_eq!(redirection, None);
}
