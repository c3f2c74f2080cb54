use minishell::number::decimal_string;
use minishell::number::parse_capped;
use minishell::order::sort_strings;
use minishell::order::str_le;
use minishell::text::chars_of;
use minishell::text::join;
use minishell::text::split;
use minishell::text::starts_with;
use minishell::text::string_of;
use minishell::text::string_of_range;
use minishell::text::text_eq;
use minishell::text::trim;
use minishell::utils::lcp;

fn list(items: &[&str]) -> Vec<String> {
    items.iter().map(|s| s.to_string()).collect()
}

#[test]
fn chars_and_back() {
    let cs = chars_of("héllo");
    assert_eq!(cs, vec!['h', 'é', 'l', 'l', 'o']);
    assert_eq!(string_of(&cs), "héllo");
    assert_eq!(string_of_range(&cs, 1, 3), "él");
    assert_eq!(string_of_range(&cs, 2, 2), "");
    assert_eq!(string_of(&Vec::new()), "");
}

#[test]
fn text_eq_compares_characters() {
    assert!(text_eq("abc", "abc"));
    assert!(text_eq("", ""));
    assert!(!text_eq("abc", "abd"));
    assert!(!text_eq("abc", "ab"));
    assert!(!text_eq("ab", "abc"));
    assert!(!text_eq("abc", "Abc"));
}

#[test]
fn trim_agrees_with_the_standard_library() {
    let samples = [
        "",
        " ",
        "a",
        "  a b  ",
        "\t\n\r a \u{b}\u{c}",
        "\u{85}x\u{a0}",
        "\u{1680}\u{2000}\u{200a}y\u{2028}\u{2029}\u{202f}\u{205f}\u{3000}",
        "\u{200b}z\u{200b}",
        "\u{feff}w",
        " a  b\t",
        "   ",
    ];
    for s in samples {
        assert_eq!(trim(s), s.trim(), "{:?}", s);
    }
}

#[test]
fn join_puts_the_separator_between() {
    assert_eq!(join(&list(&[]), ", "), "");
    assert_eq!(join(&list(&["a"]), ", "), "a");
    assert_eq!(join(&list(&["a", "b", "c"]), ", "), "a, b, c");
    assert_eq!(join(&list(&["", ""]), "-"), "-");
    assert_eq!(join(&list(&["a", "b"]), ""), "ab");
}

#[test]
fn split_agrees_with_the_standard_library() {
    let samples = [
        "",
        "a",
        "a | b",
        "a | b | c",
        " | ",
        " |  | ",
        "a |  | b",
        " | a",
        "a | ",
        "a| b",
        "a | | b",
        " |  |  | ",
        "echo hi | cat | wc -l",
    ];
    for s in samples {
        let expected: Vec<String> = s.split(" | ").map(String::from).collect();
        assert_eq!(split(s, " | "), expected, "{:?}", s);
    }
    let expected: Vec<String> = "aaaa".split("aa").map(String::from).collect();
    assert_eq!(split("aaaa", "aa"), expected);
    let expected: Vec<String> = "aaa".split("aa").map(String::from).collect();
    assert_eq!(split("aaa", "aa"), expected);
}

#[test]
fn split_by_nothing_is_one_piece() {
    assert_eq!(split("abc", ""), list(&["abc"]));
}

#[test]
fn starts_with_tells_prefixes() {
    assert!(starts_with("echo", "ec"));
    assert!(starts_with("echo", ""));
    assert!(starts_with("echo", "echo"));
    assert!(!starts_with("echo", "echoo"));
    assert!(!starts_with("echo", "Ec"));
    assert!(!starts_with("", "a"));
}

#[test]
fn decimal_string_writes_numbers() {
    assert_eq!(decimal_string(0), "0");
    assert_eq!(decimal_string(7), "7");
    assert_eq!(decimal_string(10), "10");
    assert_eq!(decimal_string(1234567890), "1234567890");
    assert_eq!(decimal_string(usize::MAX), usize::MAX.to_string());
}

#[test]
fn parse_capped_reads_numbers() {
    assert_eq!(parse_capped("0", 10), Some(0));
    assert_eq!(parse_capped("2", 10), Some(2));
    assert_eq!(parse_capped("+2", 10), Some(2));
    assert_eq!(parse_capped("007", 10), Some(7));
    assert_eq!(parse_capped("10", 10), Some(10));
    assert_eq!(parse_capped("11", 10), Some(10));
    assert_eq!(parse_capped("99999999999999999999999999999999", 10), Some(10));
    assert_eq!(parse_capped("5", 0), Some(0));
    assert_eq!(parse_capped("18446744073709551615", usize::MAX), Some(usize::MAX));
}

#[test]
fn parse_capped_rejects_what_is_no_number() {
    for s in ["", "+", "-1", "1a", "a", " 1", "1 ", "++1", "1+", "-r", "٣"] {
        assert_eq!(parse_capped(s, 10), None, "{:?}", s);
    }
}

#[test]
fn parse_capped_agrees_with_the_standard_library() {
    for s in ["0", "1", "+5", "12", "0012", "", "+", "x", "-3", "4.5", "1e3"] {
        let expected = s.parse::<usize>().ok().map(|n| n.min(1000));
        assert_eq!(parse_capped(s, 1000), expected, "{:?}", s);
    }
}

#[test]
fn str_le_agrees_with_the_standard_library() {
    let samples = ["", "a", "ab", "b", "B", "abc", "abd", "é", "z", "~", "a b", "日本", "\u{10000}"];
    for a in samples {
        for b in samples {
            assert_eq!(str_le(a, b), a <= b, "{:?} {:?}", a, b);
        }
    }
}

#[test]
fn sort_strings_agrees_with_the_standard_library() {
    let samples = list(&["pear", "apple", "fig", "apple", "", "Fig", "figs", "é", "zebra", "a"]);
    let mut expected = samples.clone();
    expected.sort();
    assert_eq!(sort_strings(&samples), expected);
    assert_eq!(sort_strings(&Vec::new()), Vec::<String>::new());
    assert_eq!(sort_strings(&list(&["b", "a"])), list(&["a", "b"]));
}

#[test]
fn lcp_of_nothing_is_empty() {
    assert_eq!(lcp(Vec::new()), "");
}

#[test]
fn lcp_of_one_is_itself() {
    assert_eq!(lcp(list(&["echo"])), "echo");
}

#[test]
fn lcp_is_the_longest_shared_start() {
    assert_eq!(lcp(list(&["xyz_bar", "xyz_baz", "xyz_quz"])), "xyz_");
    assert_eq!(lcp(list(&["xyz_baz", "xyz_quz", "xyz_bar"])), "xyz_");
    assert_eq!(lcp(list(&["echo", "exit"])), "e");
    assert_eq!(lcp(list(&["echo", "pwd"])), "");
    assert_eq!(lcp(list(&["abc", "ab", "abcd"])), "ab");
    assert_eq!(lcp(list(&["same", "same"])), "same");
    assert_eq!(lcp(list(&["", "a"])), "");
    assert_eq!(lcp(list(&["Echo", "echo"])), "");
}

#[test]
fn lcp_counts_characters() {
    assert_eq!(lcp(list(&["héllo", "hélas"])), "hél");
    assert_eq!(lcp(list(&["日本語", "日本"])), "日本");
}

#[test]
fn lcp_is_a_prefix_of_each_and_cannot_be_longer() {
    let names = list(&["history", "hist", "histogram", "hiss"]);
    let shared = lcp(names.clone());
    assert_eq!(shared, "his");
    for name in &names {
        assert!(name.starts_with(&shared));
    }
    let longer = format!("{}t", shared);
    assert!(names.iter().any(|name| !name.starts_with(&longer)));
}
