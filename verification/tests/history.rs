use minishell::history::parse_lines;
use minishell::history::render_file;
use minishell::history::HistoryLog;

fn list(items: &[&str]) -> Vec<String> {
    items.iter().map(|s| s.to_string()).collect()
}

fn log_of(items: &[&str]) -> HistoryLog {
    let mut log = HistoryLog::new();
    for item in items {
        log.push(item.to_string());
    }
    log
}

#[test]
fn parse_lines_agrees_with_the_standard_library() {
    let samples = [
        "",
        "\n",
        "a",
        "a\n",
        "a\nb",
        "a\nb\n",
        "a\n\nb\n",
        "\n\n",
        "a\r\nb\r\n",
        "a\r",
        "a\r\n",
        "\r\n",
        "\r",
        "a\rb\n",
        "a\r\r\n",
        "foo\nbar\n\r\nbaz\r",
        "echo 1\necho 2\necho 3\n",
    ];
    for s in samples {
        let expected: Vec<String> = s.lines().map(String::from).collect();
        assert_eq!(parse_lines(s), expected, "{:?}", s);
    }
}

#[test]
fn render_file_joins_and_ends_with_a_line_feed() {
    assert_eq!(render_file(&list(&["echo 1", "echo 2"])), "echo 1\necho 2\n");
    assert_eq!(render_file(&list(&["one"])), "one\n");
    assert_eq!(render_file(&list(&[])), "\n");
}

#[test]
fn what_is_written_reads_back() {
    let entries = list(&["echo 1", "", "ls -l  | wc", "a\rb", "history -w f"]);
    assert_eq!(parse_lines(&render_file(&entries)), entries);
}

#[test]
fn an_empty_log_reads_back_as_one_empty_entry() {
    assert_eq!(parse_lines(&render_file(&Vec::new())), list(&[""]));
}

#[test]
fn a_written_log_is_reproduced_in_a_fresh_session() {
    let first = log_of(&["echo 1", "echo 2", "history -w f"]);
    let text = first.file_text();
    let mut second = HistoryLog::new();
    second.load(&text);
    assert_eq!(second.entries(), first.entries());
}

#[test]
fn new_log_is_empty() {
    let log = HistoryLog::new();
    assert_eq!(log.len(), 0);
    assert_eq!(log.flushed_len(), 0);
    assert_eq!(log.entries(), &Vec::<String>::new());
}

#[test]
fn from_text_marks_all_as_flushed() {
    let log = HistoryLog::from_text("a\nb\nc\n");
    assert_eq!(log.entries(), &list(&["a", "b", "c"]));
    assert_eq!(log.flushed_len(), 3);
    let log = HistoryLog::from_lines(list(&["x", "y"]));
    assert_eq!(log.entries(), &list(&["x", "y"]));
    assert_eq!(log.flushed_len(), 2);
}

#[test]
fn push_adds_at_the_end_and_keeps_the_marker() {
    let mut log = HistoryLog::from_text("a\n");
    log.push("b".to_string());
    log.push("c".to_string());
    assert_eq!(log.entries(), &list(&["a", "b", "c"]));
    assert_eq!(log.len(), 3);
    assert_eq!(log.flushed_len(), 1);
}

#[test]
fn load_adds_the_lines_of_a_text() {
    let mut log = log_of(&["history -r f"]);
    log.load("echo 1\r\necho 2\n");
    assert_eq!(log.entries(), &list(&["history -r f", "echo 1", "echo 2"]));
    assert_eq!(log.flushed_len(), 0);
}

#[test]
fn mark_flushed_moves_the_marker_to_the_end() {
    let mut log = log_of(&["a", "b"]);
    log.mark_flushed();
    assert_eq!(log.flushed_len(), 2);
    assert_eq!(log.entries(), &list(&["a", "b"]));
}

#[test]
fn recall_counts_from_the_end() {
    let log = log_of(&["a", "b", "c"]);
    assert_eq!(log.recall(0), None);
    assert_eq!(log.recall(1), Some("c".to_string()));
    assert_eq!(log.recall(3), Some("a".to_string()));
    assert_eq!(log.recall(4), None);
}

#[test]
fn unflushed_text_holds_what_came_after_the_marker() {
    let mut log = HistoryLog::from_text("old 1\nold 2\n");
    log.push("new 1".to_string());
    log.push("exit".to_string());
    assert_eq!(log.unflushed_text(), "new 1\nexit\n");
    log.mark_flushed();
    assert_eq!(log.unflushed_text(), "\n");
}

#[test]
fn listing_numbers_the_entries_from_one() {
    let log = log_of(&["echo 1", "echo 2", "echo 3"]);
    assert_eq!(log.listing(3), "    1 echo 1\n    2 echo 2\n    3 echo 3\n");
    assert_eq!(log.listing(100), "    1 echo 1\n    2 echo 2\n    3 echo 3\n");
}

#[test]
fn listing_of_the_last_entries_keeps_their_numbers() {
    let log = log_of(&["echo 1", "echo 2", "echo 3"]);
    assert_eq!(log.listing(2), "    2 echo 2\n    3 echo 3\n");
    assert_eq!(log.listing(1), "    3 echo 3\n");
    assert_eq!(log.listing(0), "");
}

#[test]
fn listing_writes_numbers_of_several_digits() {
    let mut log = HistoryLog::new();
    for i in 0..12 {
        log.push(format!("c{}", i));
    }
    assert_eq!(log.listing(3), "    10 c9\n    11 c10\n    12 c11\n");
}

#[test]
fn append_text_is_the_whole_log_before_a_second_request() {
    let log = log_of(&["echo 1", "history -a f"]);
    assert_eq!(log.append_text("f"), "echo 1\nhistory -a f\n");
    let log = log_of(&["echo 1", "echo 2"]);
    assert_eq!(log.append_text("f"), "echo 1\necho 2\n");
}

#[test]
fn append_text_is_what_lies_between_the_last_two_requests() {
    let log = log_of(&["echo 1", "history -a f", "echo 2", "echo 3", "history -a f"]);
    assert_eq!(log.append_text("f"), "echo 2\necho 3\n");
    let log = log_of(&[
        "history -a f",
        "echo 1",
        "history -a f",
        "echo 2",
        "history -a f",
        "echo 3",
    ]);
    assert_eq!(log.append_text("f"), "echo 2\n");
}

#[test]
fn append_text_tells_files_apart() {
    let log = log_of(&["history -a g", "echo 1", "history -a g", "echo 2", "history -a f"]);
    assert_eq!(log.append_text("f"), "history -a g\necho 1\nhistory -a g\necho 2\nhistory -a f\n");
    assert_eq!(log.append_text("g"), "echo 1\n");
}

#[test]
fn append_text_between_neighbours_is_one_line_feed() {
    let log = log_of(&["history -a f", "history -a f"]);
    assert_eq!(log.append_text("f"), "\n");
}
