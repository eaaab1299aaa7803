use clippy2::text::{bytes_equal, chars_of, contains, push_decimal, push_escaped};

fn decimal(n: u64) -> String {
    let mut out = String::new();
    push_decimal(&mut out, n);
    out
}

#[test]
fn decimal_digits() {
    assert_eq!(decimal(0), "0");
    assert_eq!(decimal(7), "7");
    assert_eq!(decimal(10), "10");
    assert_eq!(decimal(240), "240");
    assert_eq!(decimal(1234567890), "1234567890");
    assert_eq!(decimal(u64::MAX), "18446744073709551615");
    for n in 0..2000u64 {
        assert_eq!(decimal(n), n.to_string());
    }
}

#[test]
fn decimal_is_appended() {
    let mut out = String::from("n=");
    push_decimal(&mut out, 42);
    push_decimal(&mut out, 0);
    assert_eq!(out, "n=420");
}

#[test]
fn substring_search() {
    assert!(contains("hello world", "hello"));
    assert!(contains("hello world", "world"));
    assert!(contains("hello world", "o w"));
    assert!(contains("hello world", ""));
    assert!(contains("", ""));
    assert!(contains("abc", "abc"));
    assert!(!contains("abc", "abcd"));
    assert!(!contains("", "a"));
    assert!(!contains("hello world", "World"));
    assert!(!contains("aaab", "aab "));
    assert!(contains("aaab", "aab"));
    assert!(contains("日本語のテキスト", "のテ"));
    assert!(!contains("100% sure", "%_"));
    assert!(!contains("abc", "a%c"));
    assert!(!contains("abc", "a_c"));
}

#[test]
fn characters_of_a_string() {
    assert_eq!(chars_of("añ日"), vec!['a', 'ñ', '日']);
    assert!(chars_of("").is_empty());
}

#[test]
fn byte_comparison() {
    assert!(bytes_equal(b"", b""));
    assert!(bytes_equal(b"abc", b"abc"));
    assert!(!bytes_equal(b"abc", b"abd"));
    assert!(!bytes_equal(b"abc", b"ab"));
    assert!(!bytes_equal(b"ab", b"abc"));
    assert!(!bytes_equal(b"xbc", b"abc"));
}

#[test]
fn escaping_marks_every_target() {
    let mut out = String::from(">");
    push_escaped(&mut out, "say \"hi\" \\ \"\"", '"', '\\');
    assert_eq!(out, ">say \\\"hi\\\" \\ \\\"\\\"");
    let mut out = String::new();
    push_escaped(&mut out, "plain", '"', '\\');
    assert_eq!(out, "plain");
    let mut out = String::new();
    push_escaped(&mut out, "", '"', '\\');
    assert_eq!(out, "");
}
