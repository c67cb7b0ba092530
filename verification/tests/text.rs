use microhttp_rs::chars::{fold_case, from_chars, push_decimal, same_text, starts_with, to_chars, to_lower};
use microhttp_rs::text::{scan, scan_back, space, split_lines, split_once, split_words, trimmed, Class};

fn chars(s: &str) -> Vec<char> {
    s.chars().collect()
}

fn text(v: &[char]) -> String {
    v.iter().collect()
}

fn texts(v: Vec<&[char]>) -> Vec<String> {
    v.into_iter().map(text).collect()
}

#[test]
fn whitespace_is_unicode_white_space() {
    for c in ['\t', '\n', '\u{0B}', '\u{0C}', '\r', ' ', '\u{85}', '\u{A0}', '\u{1680}',
        '\u{2000}', '\u{200A}', '\u{2028}', '\u{2029}', '\u{202F}', '\u{205F}', '\u{3000}']
    {
        assert!(space(c));
        assert!(c.is_whitespace());
    }
    for c in ['a', ':', '\u{08}', '\u{0E}', '\u{200B}', '\u{FEFF}', '\u{1F}', '\u{2060}'] {
        assert!(!space(c));
        assert!(!c.is_whitespace());
    }
}

#[test]
fn whitespace_agrees_with_std_on_every_character() {
    let mut n: u32 = 0;
    while n <= 0x10FFFF {
        if let Some(c) = char::from_u32(n) {
            assert_eq!(space(c), c.is_whitespace());
        }
        n += 1;
    }
}

#[test]
fn scan_counts_the_leading_characters_of_a_class() {
    assert_eq!(scan(&chars("  \tab "), &Class::Space), 3);
    assert_eq!(scan(&chars("ab cd"), &Class::Word), 2);
    assert_eq!(scan(&chars("ab:cd"), &Class::Until(':')), 2);
    assert_eq!(scan(&chars("abcd"), &Class::Until(':')), 4);
    assert_eq!(scan(&chars(""), &Class::Space), 0);
    assert_eq!(scan_back(&chars("ab \r\n"), &Class::Space), 3);
    assert_eq!(scan_back(&chars("   "), &Class::Space), 3);
}

#[test]
fn trimmed_removes_whitespace_at_both_ends_only() {
    assert_eq!(text(trimmed(&chars("  a b \r"))), "a b");
    assert_eq!(text(trimmed(&chars("\u{A0}x\u{3000}"))), "x");
    assert_eq!(text(trimmed(&chars(" \t "))), "");
    assert_eq!(text(trimmed(&chars(""))), "");
    assert_eq!(text(trimmed(&chars("ab"))), "ab");
}

#[test]
fn split_once_cuts_at_the_first_separator() {
    let s = chars("a:b:c");
    let (before, after) = split_once(&s, ':').unwrap();
    assert_eq!(text(before), "a");
    assert_eq!(text(after), "b:c");
    assert!(split_once(&chars("abc"), ':').is_none());
    let s = chars(":");
    let (before, after) = split_once(&s, ':').unwrap();
    assert_eq!(text(before), "");
    assert_eq!(text(after), "");
}

#[test]
fn split_words_gives_the_runs_between_whitespace() {
    assert_eq!(texts(split_words(&chars("GET  /path   HTTP/1.1"))), vec!["GET", "/path", "HTTP/1.1"]);
    assert_eq!(texts(split_words(&chars("  a\tb\u{A0}c  "))), vec!["a", "b", "c"]);
    assert!(split_words(&chars(" \r\n ")).is_empty());
    assert!(split_words(&chars("")).is_empty());
}

#[test]
fn split_lines_ends_lines_at_line_feeds() {
    assert_eq!(texts(split_lines(&chars("a\r\nb\nc"))), vec!["a", "b", "c"]);
    assert_eq!(texts(split_lines(&chars("a\r\n\r\n"))), vec!["a", ""]);
    assert_eq!(texts(split_lines(&chars("\n"))), vec![""]);
    assert!(split_lines(&chars("")).is_empty());
    // One carriage return is removed from the end of each line.
    assert_eq!(texts(split_lines(&chars("a\r\r\nb\r"))), vec!["a\r", "b"]);
    assert_eq!(texts(split_lines(&chars("a\rb\n"))), vec!["a\rb"]);
}

#[test]
fn characters_and_strings_convert_one_for_one() {
    assert_eq!(to_chars("h\u{E9}llo"), vec!['h', '\u{E9}', 'l', 'l', 'o']);
    assert_eq!(from_chars(&['h', '\u{E9}', '\u{1F600}']), "h\u{E9}\u{1F600}");
    assert_eq!(from_chars(&[]), "");
    assert!(same_text("abc", "abc"));
    assert!(!same_text("abc", "abd"));
    assert!(!same_text("abc", "ab"));
    assert!(starts_with(&chars("application/json; charset=utf-8"), &chars("application/json")));
    assert!(!starts_with(&chars("text/plain"), &chars("application/json")));
    assert!(starts_with(&chars("x"), &chars("")));
}

#[test]
fn case_folding_changes_ascii_letters_only() {
    assert_eq!(to_lower('A'), 'a');
    assert_eq!(to_lower('Z'), 'z');
    assert_eq!(to_lower('a'), 'a');
    assert_eq!(to_lower('@'), '@');
    assert_eq!(to_lower('['), '[');
    assert_eq!(to_lower('\u{C9}'), '\u{C9}');
    assert_eq!(text(&fold_case(&chars("Content-LENGTH"))), "content-length");
}

#[test]
fn decimal_numerals() {
    for (n, expected) in [
        (0usize, "0"),
        (7, "7"),
        (10, "10"),
        (13, "13"),
        (404, "404"),
        (1000, "1000"),
        (987654321, "987654321"),
    ] {
        let mut out = Vec::new();
        push_decimal(&mut out, n);
        assert_eq!(text(&out), expected);
    }
    let mut out = vec!['x'];
    push_decimal(&mut out, usize::MAX);
    assert_eq!(text(&out), format!("x{}", usize::MAX));
}
