use scanmap::order::str_le;
use scanmap::text::{decimal_string, pad_right, plural_str, strip_newlines, tokens};

#[test]
fn strip_newlines_removes_every_line_feed() {
    assert_eq!(strip_newlines("abc\n"), "abc");
    assert_eq!(strip_newlines("a\nb\nc"), "abc");
    assert_eq!(strip_newlines("\n\n"), "");
    assert_eq!(strip_newlines(""), "");
}

#[test]
fn strip_newlines_keeps_other_characters() {
    assert_eq!(strip_newlines("  kitchen, 2nd floor\r\n"), "  kitchen, 2nd floor\r");
    assert_eq!(strip_newlines("grüße\n"), "grüße");
}

#[test]
fn tokens_splits_on_single_spaces() {
    assert_eq!(tokens("1 2 3"), vec!["1", "2", "3"]);
    assert_eq!(tokens("1 2"), vec!["1", "2"]);
    assert_eq!(tokens("x y z"), vec!["x", "y", "z"]);
}

#[test]
fn tokens_takes_runs_of_whitespace_as_one_separator() {
    assert_eq!(tokens("  1.5\t-2   3e2\r\n"), vec!["1.5", "-2", "3e2"]);
    assert_eq!(tokens("a\x0Cb"), vec!["a", "b"]);
}

#[test]
fn tokens_of_blank_lines_are_none() {
    assert_eq!(tokens(""), Vec::<String>::new());
    assert_eq!(tokens(" \t\n"), Vec::<String>::new());
}

#[test]
fn tokens_keeps_a_single_token() {
    assert_eq!(tokens("alone"), vec!["alone"]);
    assert_eq!(tokens("alone "), vec!["alone"]);
    assert_eq!(tokens(" alone"), vec!["alone"]);
}

#[test]
fn tokens_are_those_of_split_whitespace_on_ascii_input() {
    for line in ["1 2 3", " a  b ", "", "x\ty\nz", "1 2 notanumber", "one"] {
        let expected: Vec<String> = line.split_ascii_whitespace().map(String::from).collect();
        assert_eq!(tokens(line), expected);
    }
}

#[test]
fn decimal_string_writes_small_numbers() {
    assert_eq!(decimal_string(0), "0");
    assert_eq!(decimal_string(7), "7");
    assert_eq!(decimal_string(9), "9");
    assert_eq!(decimal_string(10), "10");
    assert_eq!(decimal_string(105), "105");
}

#[test]
fn decimal_string_writes_large_numbers() {
    assert_eq!(decimal_string(1_234_567_890), "1234567890");
    assert_eq!(decimal_string(1_700_000_000_123), "1700000000123");
    assert_eq!(decimal_string(u128::MAX), "340282366920938463463374607431768211455");
}

#[test]
fn decimal_string_agrees_with_the_standard_library() {
    for n in [0u128, 1, 99, 100, 101, 65_535, 4_294_967_296, u64::MAX as u128 + 1] {
        assert_eq!(decimal_string(n), n.to_string());
    }
}

#[test]
fn pad_right_fills_with_spaces() {
    assert_eq!(pad_right("ab", 5), "ab   ");
    assert_eq!(pad_right("", 3), "   ");
}

#[test]
fn pad_right_leaves_long_text_alone() {
    assert_eq!(pad_right("abcde", 5), "abcde");
    assert_eq!(pad_right("abcdef", 5), "abcdef");
    assert_eq!(pad_right("", 0), "");
}

#[test]
fn pad_right_counts_bytes() {
    // "é" takes two bytes, so a width of 4 leaves room for two spaces only.
    assert_eq!(pad_right("é", 4), "é  ");
    assert_eq!(pad_right("é", 4).len(), 4);
}

#[test]
fn plural_str_is_empty_only_for_one() {
    assert_eq!(plural_str(0), "s");
    assert_eq!(plural_str(1), "");
    assert_eq!(plural_str(2), "s");
}

#[test]
fn str_le_orders_by_bytes() {
    assert!(str_le("a2", "b1"));
    assert!(!str_le("b1", "a2"));
    assert!(str_le("b1", "c3"));
    assert!(str_le("A", "a"));
    assert!(!str_le("a", "A"));
}

#[test]
fn str_le_puts_a_prefix_first() {
    assert!(str_le("", ""));
    assert!(str_le("", "a"));
    assert!(!str_le("a", ""));
    assert!(str_le("ab", "abc"));
    assert!(!str_le("abc", "ab"));
}

#[test]
fn str_le_holds_both_ways_only_for_equal_text() {
    assert!(str_le("aa:bb", "aa:bb"));
    assert!(str_le("aa:bb", "aa:bc") && !str_le("aa:bc", "aa:bb"));
}

#[test]
fn str_le_agrees_with_the_standard_order() {
    let samples = ["", "a", "ab", "b", "B", "é", "z", "00:11", "00:1A", "ÿ", "語"];
    for a in samples {
        for b in samples {
            assert_eq!(str_le(a, b), a <= b, "{:?} vs {:?}", a, b);
        }
    }
}
