use minishell::builtins::builtin_names;
use minishell::builtins::classify;
use minishell::builtins::is_builtin;
use minishell::builtins::Builtin;
use minishell::dispatch::cd_failure;
use minishell::dispatch::dispatch;
use minishell::dispatch::echo;
use minishell::dispatch::expand_home;
use minishell::dispatch::lookup_name;
use minishell::dispatch::not_found;
use minishell::dispatch::parse_command;
use minishell::dispatch::plan_with;
use minishell::dispatch::pwd;
use minishell::dispatch::route_process;
use minishell::dispatch::route_text;
use minishell::dispatch::type_report;
use minishell::dispatch::Env;
use minishell::dispatch::FileBytes;
use minishell::dispatch::FileWrite;
use minishell::dispatch::Output;
use minishell::dispatch::ParsedCommand;
use minishell::dispatch::Plan;
use minishell::dispatch::ProcessOutput;
use minishell::dispatch::Routed;
use minishell::history::HistoryLog;
use minishell::redirection::Redirection;
use minishell::redirection::RedirectionKind;
use minishell::shell::plan_line;
use minishell::shell::LinePlan;
use minishell::words::words;

fn list(items: &[&str]) -> Vec<String> {
    items.iter().map(|s| s.to_string()).collect()
}

fn log_of(items: &[&str]) -> HistoryLog {
    let mut log = HistoryLog::new();
    for item in items {
        log.push(item.to_string());
    }
    log
}

fn no_env() -> Env {
    Env { home: None, history_file: None }
}

fn to(kind: RedirectionKind, target: &str) -> Option<Redirection> {
    Some(Redirection { kind, target: target.to_string() })
}

fn said(text: &str) -> Plan {
    Plan::Say(Output { file: None, terminal: text.to_string() })
}

fn written(path: &str, append: bool, text: &str, terminal: &str) -> Plan {
    Plan::Say(Output {
        file: Some(FileWrite { path: path.to_string(), append, text: text.to_string() }),
        terminal: terminal.to_string(),
    })
}

fn plan(line: &str, history: &HistoryLog, env: &Env, found: Option<&str>) -> Plan {
    let (cmd, redirection) = parse_command(&words(line)).unwrap();
    plan_with(cmd, redirection, history, env, found.map(String::from))
}

#[test]
fn builtins_are_the_fixed_set() {
    assert_eq!(builtin_names(), list(&["exit", "echo", "type", "pwd", "cd", "history", ".", ".."]));
    for name in builtin_names() {
        assert!(is_builtin(&name));
    }
    assert_eq!(classify("exit"), Some(Builtin::Exit));
    assert_eq!(classify("echo"), Some(Builtin::Echo));
    assert_eq!(classify("type"), Some(Builtin::Type));
    assert_eq!(classify("pwd"), Some(Builtin::Pwd));
    assert_eq!(classify("cd"), Some(Builtin::Cd));
    assert_eq!(classify("history"), Some(Builtin::History));
    assert_eq!(classify("."), Some(Builtin::Here));
    assert_eq!(classify(".."), Some(Builtin::Parent));
    assert_eq!(classify("ls"), None);
    assert_eq!(classify("Echo"), None);
    assert_eq!(classify(""), None);
    assert!(!is_builtin("..."));
}

#[test]
fn echo_to_a_file_writes_the_words_and_nothing_to_the_terminal() {
    let line = plan_line("echo hello hello > output.txt", &HistoryLog::new(), &no_env());
    assert_eq!(line, LinePlan::Single(written("output.txt", false, "hello hello\n", "")));
}

#[test]
fn echo_prints_its_words_and_one_line_feed() {
    let line = plan_line("echo a b c", &HistoryLog::new(), &no_env());
    assert_eq!(line, LinePlan::Single(said("a b c\n")));
}

#[test]
fn echo_without_words_prints_a_line_feed() {
    assert_eq!(plan("echo", &HistoryLog::new(), &no_env(), None), said("\n"));
}

#[test]
fn echo_trims_for_the_terminal_only() {
    let args = list(&[" a ", "b "]);
    assert_eq!(echo(&args, None), Output { file: None, terminal: "a  b\n".to_string() });
    assert_eq!(
        echo(&args, to(RedirectionKind::Stdout, "f")),
        Output {
            file: Some(FileWrite {
                path: "f".to_string(),
                append: false,
                text: " a  b \n".to_string()
            }),
            terminal: String::new(),
        }
    );
    assert_eq!(
        echo(&args, to(RedirectionKind::AppendStderr, "f")),
        Output { file: None, terminal: "a  b\n".to_string() }
    );
}

#[test]
fn route_text_follows_the_redirection() {
    let text = "out\n".to_string();
    assert_eq!(route_text(text.clone(), None), Output { file: None, terminal: text.clone() });
    for (kind, append) in [(RedirectionKind::Stdout, false), (RedirectionKind::AppendStdout, true)] {
        assert_eq!(
            route_text(text.clone(), to(kind, "f")),
            Output {
                file: Some(FileWrite { path: "f".to_string(), append, text: text.clone() }),
                terminal: String::new(),
            }
        );
    }
    for kind in [RedirectionKind::Stderr, RedirectionKind::AppendStderr] {
        assert_eq!(
            route_text(text.clone(), to(kind, "f")),
            Output { file: None, terminal: text.clone() }
        );
    }
}

#[test]
fn type_report_tells_builtins_paths_and_unknowns() {
    assert_eq!(type_report("echo", &None), "echo is a shell builtin\n");
    assert_eq!(type_report("echo", &Some("/bin/echo".to_string())), "echo is a shell builtin\n");
    assert_eq!(type_report("ls", &Some("/bin/ls".to_string())), "ls is /bin/ls\n");
    assert_eq!(type_report("nope", &None), "nope: not found\n");
    assert_eq!(type_report("", &None), ": not found\n");
}

#[test]
fn type_asks_about_its_joined_words() {
    let h = HistoryLog::new();
    assert_eq!(plan("type history", &h, &no_env(), None), said("history is a shell builtin\n"));
    assert_eq!(plan("type ls", &h, &no_env(), Some("/usr/bin/ls")), said("ls is /usr/bin/ls\n"));
    assert_eq!(plan("type a b", &h, &no_env(), None), said("a b: not found\n"));
    assert_eq!(
        plan("type cd >> log", &h, &no_env(), None),
        written("log", true, "cd is a shell builtin\n", "")
    );
}

#[test]
fn lookup_name_is_what_the_search_path_is_asked() {
    let cmd = |line: &str| parse_command(&words(line)).unwrap().0;
    assert_eq!(lookup_name(&cmd("ls -l")), Some("ls".to_string()));
    assert_eq!(lookup_name(&cmd("type ls")), Some("ls".to_string()));
    assert_eq!(lookup_name(&cmd("type a b")), Some("a b".to_string()));
    assert_eq!(lookup_name(&cmd("type echo")), None);
    assert_eq!(lookup_name(&cmd("echo ls")), None);
    assert_eq!(lookup_name(&cmd("cd /")), None);
    assert_eq!(lookup_name(&cmd("' ls '")), Some("ls".to_string()));
}

#[test]
fn an_unknown_command_is_reported() {
    let h = HistoryLog::new();
    assert_eq!(plan("nosuch -x", &h, &no_env(), None), said("nosuch: command not found\n"));
    assert_eq!(plan("nosuch > f", &h, &no_env(), None), said("nosuch: command not found\n"));
    assert_eq!(not_found("abc"), "abc: command not found\n");
}

#[test]
fn a_found_command_is_run_with_its_arguments() {
    let h = HistoryLog::new();
    assert_eq!(
        plan("ls -l /tmp", &h, &no_env(), Some("/bin/ls")),
        Plan::Run { program: "ls".to_string(), args: list(&["-l", "/tmp"]), redirection: None }
    );
    assert_eq!(
        plan("ls -l 2> errs /tmp", &h, &no_env(), Some("/bin/ls")),
        Plan::Run {
            program: "ls".to_string(),
            args: list(&["-l"]),
            redirection: to(RedirectionKind::Stderr, "errs"),
        }
    );
}

#[test]
fn dispatch_asks_the_search_path() {
    let h = HistoryLog::new();
    let cmd = ParsedCommand { head: "no-such-program-on-any-path".to_string(), args: Vec::new() };
    assert_eq!(
        dispatch(cmd, None, &h, &no_env()),
        said("no-such-program-on-any-path: command not found\n")
    );
    let cmd = ParsedCommand { head: "type".to_string(), args: list(&["sh"]) };
    match dispatch(cmd, None, &h, &no_env()) {
        Plan::Say(out) => {
            assert_eq!(out.file, None);
            assert!(
                out.terminal == "sh: not found\n"
                    || (out.terminal.starts_with("sh is /") && out.terminal.ends_with("/sh\n")),
                "{:?}",
                out.terminal
            );
        }
        other => panic!("{:?}", other),
    }
    let cmd = ParsedCommand { head: "echo".to_string(), args: list(&["x"]) };
    assert_eq!(dispatch(cmd, None, &h, &no_env()), said("x\n"));
}

#[test]
fn a_line_without_words_asks_for_nothing() {
    let h = HistoryLog::new();
    assert_eq!(plan_line("", &h, &no_env()), LinePlan::Single(Plan::Nothing));
    assert_eq!(plan_line("   ", &h, &no_env()), LinePlan::Single(Plan::Nothing));
    assert_eq!(plan_line("echo 'open", &h, &no_env()), LinePlan::Single(Plan::Nothing));
}

#[test]
fn pwd_is_left_to_the_caller_and_routed() {
    let h = HistoryLog::new();
    assert_eq!(plan("pwd", &h, &no_env(), None), Plan::WorkingDir { redirection: None });
    assert_eq!(
        plan("pwd > here", &h, &no_env(), None),
        Plan::WorkingDir { redirection: to(RedirectionKind::Stdout, "here") }
    );
    assert_eq!(pwd("/home/u", None), Output { file: None, terminal: "/home/u\n".to_string() });
    assert_eq!(
        pwd("/home/u", to(RedirectionKind::Stdout, "here")),
        Output {
            file: Some(FileWrite {
                path: "here".to_string(),
                append: false,
                text: "/home/u\n".to_string()
            }),
            terminal: String::new(),
        }
    );
}

#[test]
fn cd_changes_to_its_first_argument() {
    let h = HistoryLog::new();
    let env = Env { home: Some("/home/u".to_string()), history_file: None };
    assert_eq!(plan("cd /tmp x", &h, &env, None), Plan::ChangeDir { path: "/tmp".to_string() });
    assert_eq!(plan("cd ~", &h, &env, None), Plan::ChangeDir { path: "/home/u".to_string() });
    assert_eq!(
        plan("cd ~/src", &h, &env, None),
        Plan::ChangeDir { path: "/home/u/src".to_string() }
    );
    assert_eq!(plan("cd a~b", &h, &env, None), Plan::ChangeDir { path: "a~b".to_string() });
    assert_eq!(plan("cd ~", &h, &no_env(), None), Plan::ChangeDir { path: "~".to_string() });
}

#[test]
fn cd_without_an_argument_says_so() {
    assert_eq!(plan("cd", &HistoryLog::new(), &no_env(), None), said("cd: missing argument\n"));
}

#[test]
fn expand_home_and_failure_text() {
    assert_eq!(expand_home("~/x", &Some("/h".to_string())), "/h/x");
    assert_eq!(expand_home("", &Some("/h".to_string())), "");
    assert_eq!(expand_home("x/~", &Some("/h".to_string())), "x/~");
    assert_eq!(expand_home("~~", &Some("/h".to_string())), "/h~");
    assert_eq!(cd_failure("/nowhere"), "cd: /nowhere: No such file or directory\n");
}

#[test]
fn dots_change_the_directory() {
    let h = HistoryLog::new();
    assert_eq!(plan(".", &h, &no_env(), None), Plan::ChangeDir { path: ".".to_string() });
    assert_eq!(plan("..", &h, &no_env(), None), Plan::ChangeDir { path: "..".to_string() });
}

#[test]
fn exit_flushes_what_the_history_file_lacks() {
    let mut h = HistoryLog::from_text("old\n");
    h.push("echo 1".to_string());
    h.push("exit".to_string());
    let env = Env { home: None, history_file: Some("/tmp/hist".to_string()) };
    assert_eq!(
        plan("exit", &h, &env, None),
        Plan::Exit {
            flush: Some(FileWrite {
                path: "/tmp/hist".to_string(),
                append: true,
                text: "echo 1\nexit\n".to_string(),
            })
        }
    );
    assert_eq!(plan("exit", &h, &no_env(), None), Plan::Exit { flush: None });
    assert_eq!(plan(" exit 3", &h, &no_env(), None), Plan::Exit { flush: None });
}

#[test]
fn history_lists_the_log() {
    let h = log_of(&["echo 1", "echo 2", "echo 3"]);
    assert_eq!(
        plan("history", &h, &no_env(), None),
        said("    1 echo 1\n    2 echo 2\n    3 echo 3\n")
    );
}

#[test]
fn history_with_a_number_lists_the_last_entries() {
    let h = log_of(&["echo 1", "echo 2", "echo 3"]);
    assert_eq!(plan("history 2", &h, &no_env(), None), said("    2 echo 2\n    3 echo 3\n"));
    assert_eq!(plan("history 0", &h, &no_env(), None), said(""));
    let all = said("    1 echo 1\n    2 echo 2\n    3 echo 3\n");
    assert_eq!(plan("history 3", &h, &no_env(), None), all);
    assert_eq!(plan("history 77", &h, &no_env(), None), all);
    assert_eq!(plan("history 99999999999999999999999999", &h, &no_env(), None), all);
    assert_eq!(plan("history x", &h, &no_env(), None), all);
    assert_eq!(plan("history -r", &h, &no_env(), None), all);
    assert_eq!(plan("history -2", &h, &no_env(), None), all);
}

#[test]
fn history_listing_can_be_redirected() {
    let h = log_of(&["a", "b"]);
    assert_eq!(plan("history 1 > f", &h, &no_env(), None), written("f", false, "    2 b\n", ""));
}

#[test]
fn history_reads_writes_and_appends() {
    let h = log_of(&["echo 1", "history -a f", "echo 2", "history -a f"]);
    assert_eq!(
        plan("history -r f", &h, &no_env(), None),
        Plan::LoadHistory { path: "f".to_string() }
    );
    assert_eq!(
        plan("history -w f", &h, &no_env(), None),
        written("f", false, "echo 1\nhistory -a f\necho 2\nhistory -a f\n", "")
    );
    assert_eq!(plan("history -a f", &h, &no_env(), None), written("f", true, "echo 2\n", ""));
    assert_eq!(
        plan("history -a g", &h, &no_env(), None),
        written("g", true, "echo 1\nhistory -a f\necho 2\nhistory -a f\n", "")
    );
}

fn ran(success: bool, stdout: &[u8], stderr: &[u8]) -> ProcessOutput {
    ProcessOutput { success, stdout: stdout.to_vec(), stderr: stderr.to_vec() }
}

#[test]
fn process_output_goes_to_the_terminal() {
    assert_eq!(
        route_process(ran(true, b"out\n", b"err"), None),
        Routed { file: None, stdout: b"out\n".to_vec(), stderr: b"err".to_vec() }
    );
}

#[test]
fn process_output_gets_a_line_feed_after_success() {
    assert_eq!(
        route_process(ran(true, b"out", b""), None),
        Routed { file: None, stdout: b"out\n".to_vec(), stderr: Vec::new() }
    );
    assert_eq!(
        route_process(ran(true, b"", b""), None),
        Routed { file: None, stdout: b"\n".to_vec(), stderr: Vec::new() }
    );
    assert_eq!(
        route_process(ran(false, b"out", b"bad"), None),
        Routed { file: None, stdout: b"out".to_vec(), stderr: b"bad".to_vec() }
    );
    assert_eq!(
        route_process(ran(false, b"", b""), None),
        Routed { file: None, stdout: Vec::new(), stderr: Vec::new() }
    );
}

#[test]
fn process_output_follows_the_redirection() {
    for (kind, append) in [(RedirectionKind::Stdout, false), (RedirectionKind::AppendStdout, true)] {
        assert_eq!(
            route_process(ran(true, b"out", b"err"), to(kind, "f")),
            Routed {
                file: Some(FileBytes { path: "f".to_string(), append, bytes: b"out".to_vec() }),
                stdout: Vec::new(),
                stderr: b"err".to_vec(),
            }
        );
    }
    for (kind, append) in [(RedirectionKind::Stderr, false), (RedirectionKind::AppendStderr, true)] {
        assert_eq!(
            route_process(ran(true, b"out", b"err"), to(kind, "f")),
            Routed {
                file: Some(FileBytes { path: "f".to_string(), append, bytes: b"err".to_vec() }),
                stdout: b"out".to_vec(),
                stderr: Vec::new(),
            }
        );
    }
}
