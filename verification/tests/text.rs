use oplire::text::{decimal_text, first_chars, has_prefix, integer_text, join, numeral_text};
use oplire::text::{same, split_lines, trim_end_slashes};

#[test]
fn strings_are_compared_by_their_characters() {
    assert!(same("", ""));
    assert!(same("né", "né"));
    assert!(!same("ab", "a"));
    assert!(!same("a", "ab"));
    assert!(!same("ab", "ac"));
    assert!(has_prefix("127.0.0.1", "127."));
    assert!(!has_prefix("127", "127."));
    assert_eq!(first_chars("ses_é1234567", 8), "ses_é123");
    assert_eq!(first_chars("abc", 8), "abc");
}

#[test]
fn numerals() {
    assert_eq!(decimal_text(0), "0");
    assert_eq!(decimal_text(1020), "1020");
    assert_eq!(decimal_text(u128::MAX), u128::MAX.to_string());
    assert_eq!(numeral_text(0xdead_beef, 16), "deadbeef");
    assert_eq!(numeral_text(6, 2), "110");
    assert_eq!(integer_text(-40), "-40");
    assert_eq!(integer_text(i64::MIN), i64::MIN.to_string());
}

#[test]
fn end_slashes_are_dropped() {
    assert_eq!(trim_end_slashes("http://localhost:3000///"), "http://localhost:3000");
    assert_eq!(trim_end_slashes("a/b"), "a/b");
    assert_eq!(trim_end_slashes("//"), "");
}

#[test]
fn joining() {
    let list = vec!["a".to_string(), "".to_string(), "b".to_string()];
    assert_eq!(join(&list, "\n"), "a\n\nb");
    assert_eq!(join(&vec![], ","), "");
}

#[test]
fn lines_are_those_of_the_standard_library() {
    for s in [
        "",
        "\n",
        "a",
        "a\n",
        "a\n\nb",
        "a\r\nb\r",
        "\r\n\r\n",
        "data: {\"x\":1}\n\ndata: [DONE]\n\n",
        "a\r\r\nb",
        "\rb\n",
    ] {
        let expected: Vec<String> = s.lines().map(|l| l.to_string()).collect();
        assert_eq!(split_lines(s), expected, "{:?}", s);
    }
    assert_eq!(split_lines("foo\r\nbar\n\nbaz\r"), vec!["foo", "bar", "", "baz\r"]);
}
