use nh::paths::join;
use nh::text::{
    decimal_text, line_one, parse_digits, shorten, strip_prefix, strip_suffix, to_one_line, trim, trim_line_end,
};

#[test]
fn trimming_is_done_at_once() {
    assert_eq!(trim("\t a b\u{2003}\n"), "a b");
    assert_eq!(trim(&trim("  x  ")), trim("  x  "));
    assert_eq!(trim(" \u{feff} "), "\u{feff}");
    assert_eq!(trim(" \n"), "");
}

#[test]
fn line_ends_are_cut() {
    assert_eq!(trim_line_end("a \r\n\n"), "a ");
    assert_eq!(trim_line_end("\na"), "\na");
    assert_eq!(line_one("a\r\nb"), Some("a".to_string()));
    assert_eq!(line_one("a\rb"), Some("a\rb".to_string()));
    assert_eq!(line_one(""), None);
    assert_eq!(line_one("\n"), Some(String::new()));
    assert_eq!(to_one_line("a\nb\n"), "a b ");
}

#[test]
fn numbers_read_back() {
    for number in [0u64, 7, 10, 99, 18446744073709551615] {
        assert_eq!(decimal_text(number as u128), number.to_string());
        assert_eq!(parse_digits(&number.to_string()), Some(number));
    }
    assert_eq!(decimal_text(u128::MAX), u128::MAX.to_string());
    assert_eq!(parse_digits(""), None);
    assert_eq!(parse_digits("1a"), None);
}

#[test]
fn ends_are_stripped() {
    assert_eq!(strip_prefix("#1", "#"), Some("1".to_string()));
    assert_eq!(strip_prefix("1", "#"), None);
    assert_eq!(strip_suffix("a-small", "-small"), Some("a".to_string()));
    assert_eq!(strip_suffix("a", "-small"), None);
}

#[test]
fn long_texts_are_shortened() {
    assert_eq!(shorten("abc", 3), "abc");
    assert_eq!(shorten("abcd", 3), "abc...");
}

#[test]
fn paths_are_joined() {
    assert_eq!(join(b"/a", "b"), b"/a/b".to_vec());
    assert_eq!(join(b"/a/", "b"), b"/a/b".to_vec());
    assert_eq!(join(b"", "b"), b"b".to_vec());
    assert_eq!(join(b"/a", "/b"), b"/b".to_vec());
}
