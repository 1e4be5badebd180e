use wlin_pronet::text::{
    char_is_space, chars_of, find_in, has_local_name, has_prefix, has_text, matches_name,
    same_text, string_of, to_ascii_lower, trim_in,
};
use wlin_pronet::text::decimal::{push_decimal, read_u32};

fn number(text: &str) -> Option<u32> {
    let chars = chars_of(text);
    read_u32(&chars, 0, chars.len())
}

fn decimal(n: u32) -> String {
    let mut out = String::from("n=");
    push_decimal(&mut out, n);
    out
}

#[test]
fn decimal_notation() {
    assert_eq!(decimal(0), "n=0");
    assert_eq!(decimal(7), "n=7");
    assert_eq!(decimal(10), "n=10");
    assert_eq!(decimal(1800), "n=1800");
    assert_eq!(decimal(4294967295), "n=4294967295");
}

#[test]
fn numbers_are_read_as_written() {
    assert_eq!(number("0"), Some(0));
    assert_eq!(number("1800"), Some(1800));
    assert_eq!(number("+42"), Some(42));
    assert_eq!(number("0042"), Some(42));
    assert_eq!(number("4294967295"), Some(4294967295));
    assert_eq!(number("4294967296"), None);
    assert_eq!(number(""), None);
    assert_eq!(number("+"), None);
    assert_eq!(number("-1"), None);
    assert_eq!(number("1 "), None);
    assert_eq!(number("١٢"), None);
    for n in [0u32, 9, 10, 99, 100, 65535, 4294967295] {
        assert_eq!(number(&n.to_string()), Some(n));
        assert_eq!(decimal(n), format!("n={}", n));
    }
}

#[test]
fn windows_of_a_text() {
    let chars = chars_of("  key : value\t\n next");
    assert_eq!(chars.len(), 20);
    let line_end = find_in(&chars, 0, chars.len(), '\n');
    assert_eq!(line_end, 14);
    assert_eq!(find_in(&chars, 0, chars.len(), '#'), chars.len());
    let (from, to) = trim_in(&chars, 0, line_end);
    assert_eq!(string_of(&chars, from, to), "key : value");
    let colon = find_in(&chars, from, to, ':');
    let (a, b) = trim_in(&chars, from, colon);
    assert_eq!(string_of(&chars, a, b), "key");
    assert!(matches_name(&chars, a, b, &chars_of("KEY")));
    assert!(!matches_name(&chars, a, b, &chars_of("keys")));
    let (c, d) = trim_in(&chars, 0, 2);
    assert_eq!(c, d);
}

#[test]
fn characters_and_prefixes() {
    for c in [' ', '\t', '\n', '\u{0B}', '\u{0C}', '\r', '\u{85}', '\u{A0}', '\u{1680}', '\u{2000}', '\u{200A}', '\u{2028}', '\u{2029}', '\u{202F}', '\u{205F}', '\u{3000}'] {
        assert!(char_is_space(c));
        assert!(c.is_whitespace());
    }
    for c in ['a', '0', '\u{08}', '\u{0E}', '\u{1F}', '\u{200B}', '\u{180E}', '\u{FEFF}'] {
        assert!(!char_is_space(c));
        assert!(!c.is_whitespace());
    }
    assert_eq!(to_ascii_lower('A'), 'a');
    assert_eq!(to_ascii_lower('Z'), 'z');
    assert_eq!(to_ascii_lower('a'), 'a');
    assert_eq!(to_ascii_lower('['), '[');
    assert_eq!(to_ascii_lower('@'), '@');
    assert_eq!(to_ascii_lower('\u{C4}'), '\u{C4}');
    assert!(has_prefix(&chars_of("HTTP/1.1 200 OK\r\n"), &chars_of("HTTP/1.1 200 OK")));
    assert!(!has_prefix(&chars_of("HTTP/1.1 200"), &chars_of("HTTP/1.1 200 OK")));
    assert!(has_prefix(&chars_of("x"), &chars_of("")));
    assert!(same_text("abc", "abc"));
    assert!(!same_text("abc", "abd"));
    assert!(!same_text("abc", "ab"));
}

#[test]
fn names_and_parts() {
    assert!(has_local_name("s:Body", "Body"));
    assert!(has_local_name("Body", "Body"));
    assert!(has_local_name("a:b:Body", "b:Body"));
    assert!(!has_local_name("s:Body", "s:Body"));
    assert!(!has_local_name("s:body", "Body"));
    assert!(has_local_name("s:", ""));
    assert!(has_text("hello world", "o w"));
    assert!(has_text("hello", ""));
    assert!(has_text("", ""));
    assert!(!has_text("", "a"));
    assert!(!has_text("hello", "hellos"));
    assert!(has_text("aab", "ab"));
}
