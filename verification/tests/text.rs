use procapi::text::{
    chars_of, find_char, is_space, join_words, parse_u32, parse_u64, replace_char, split_at_zero,
    split_chars, split_lines, split_once_at, string_of, trimmed, utf8_or_empty,
};

fn cs(s: &str) -> Vec<char> {
    s.chars().collect()
}

fn strings(v: Vec<Vec<char>>) -> Vec<String> {
    v.into_iter().map(|l| l.into_iter().collect()).collect()
}

#[test]
fn chars_and_strings_round_trip() {
    assert_eq!(chars_of("héllo"), cs("héllo"));
    assert_eq!(string_of(&cs("héllo")), "héllo");
    assert_eq!(string_of(&[]), "");
}

#[test]
fn white_space_set() {
    for c in [' ', '\t', '\n', '\r', '\u{b}', '\u{c}', '\u{85}', '\u{a0}', '\u{2003}', '\u{3000}'] {
        assert!(is_space(c));
        assert!(c.is_whitespace());
    }
    for c in ['a', '\0', '\u{200b}', '_'] {
        assert!(!is_space(c));
        assert!(!c.is_whitespace());
    }
}

#[test]
fn trimming() {
    assert_eq!(trimmed(&cs("  a b \n")), cs("a b"));
    assert_eq!(trimmed(&cs(" \t ")), cs(""));
    assert_eq!(trimmed(&cs("x")), cs("x"));
    assert_eq!(trimmed(&cs("\u{3000}y\u{a0}")), cs("y"));
}

#[test]
fn splitting() {
    assert_eq!(strings(split_chars(&cs("a:b::c"), ':')), vec!["a", "b", "", "c"]);
    assert_eq!(strings(split_chars(&cs(""), ':')), vec![""]);
    assert_eq!(split_at_zero(b"ab\0\0c"), vec![b"ab".to_vec(), Vec::new(), b"c".to_vec()]);
}

#[test]
fn line_splitting_matches_str_lines() {
    for text in ["", "a", "a\n", "a\r\nb", "a\n\nb\n", "a\r", "\r\n", "x\r\ry\n"] {
        let expected: Vec<String> = text.lines().map(|l| l.to_string()).collect();
        assert_eq!(strings(split_lines(&cs(text))), expected, "{:?}", text);
    }
}

#[test]
fn finding_and_split_once() {
    assert_eq!(find_char(&cs("ab:c"), ':'), 2);
    assert_eq!(find_char(&cs("abc"), ':'), 3);
    assert_eq!(split_once_at(&cs("PPid:\t1:2"), ':'), Some((cs("PPid"), cs("\t1:2"))));
    assert_eq!(split_once_at(&cs("none"), ':'), None);
}

#[test]
fn decimal_parsing_matches_str_parse() {
    for text in ["0", "42", "+7", "-1", "", "+", "1a", "4294967295", "4294967296", " 1", "０"] {
        assert_eq!(parse_u32(&cs(text)), text.parse::<u32>().ok(), "{:?}", text);
    }
    for text in ["18446744073709551615", "18446744073709551616", "99999999999999999999999", "007"] {
        assert_eq!(parse_u64(&cs(text)), text.parse::<u64>().ok(), "{:?}", text);
    }
}

#[test]
fn joining() {
    let w = vec!["a".to_string(), "b".to_string(), String::new(), "c".to_string()];
    assert_eq!(join_words(&w, " "), "a b  c");
    assert_eq!(join_words(&Vec::new(), " "), "");
    assert_eq!(join_words(&vec!["x".to_string()], ", "), "x");
}

#[test]
fn replacing() {
    assert_eq!(replace_char(&cs("a\0b\0"), '\0', ' '), cs("a b "));
}

#[test]
fn utf8_decoding() {
    assert_eq!(utf8_or_empty(b"caf\xc3\xa9"), "café");
    assert_eq!(utf8_or_empty(b"\xc3"), "");
    assert_eq!(utf8_or_empty(b""), "");
}
