use stream_http::text::{
    chars_of, find_first, split_ranges, starts_with_ignore_case, text_of, to_ascii_lower,
    trim_range,
};

fn chars(text: &str) -> Vec<char> {
    text.chars().collect()
}

fn split(text: &str, pat: &str) -> Vec<String> {
    let text = chars(text);
    split_ranges(&text, &chars(pat))
        .into_iter()
        .map(|(lo, hi)| text[lo..hi].iter().collect())
        .collect()
}

fn trimmed(text: &str) -> String {
    let text = chars(text);
    let (lo, hi) = trim_range(&text);
    text[lo..hi].iter().collect()
}

#[test]
fn characters_and_text_convert_both_ways() {
    assert_eq!(chars_of(""), Vec::<char>::new());
    assert_eq!(chars_of("a\u{e9}\u{1f600}"), vec!['a', '\u{e9}', '\u{1f600}']);
    assert_eq!(text_of(&['a', '\u{e9}', '\u{1f600}']), "a\u{e9}\u{1f600}");
    assert_eq!(text_of(&[]), "");
}

#[test]
fn first_occurrence_is_found() {
    assert_eq!(find_first(&chars("a: b: c"), &chars(": ")), Some(1));
    assert_eq!(find_first(&chars(": "), &chars(": ")), Some(0));
    assert_eq!(find_first(&chars("ab: "), &chars(": ")), Some(2));
    assert_eq!(find_first(&chars("aaab"), &chars("aab")), Some(1));
}

#[test]
fn absent_pattern_is_not_found() {
    assert_eq!(find_first(&chars("a:b"), &chars(": ")), None);
    assert_eq!(find_first(&chars(":"), &chars(": ")), None);
    assert_eq!(find_first(&chars(""), &chars(": ")), None);
}

#[test]
fn empty_pattern_stands_at_the_start() {
    assert_eq!(find_first(&chars("abc"), &chars("")), Some(0));
    assert_eq!(find_first(&chars(""), &chars("")), Some(0));
}

#[test]
fn text_splits_like_the_standard_library() {
    for (text, pat) in [
        ("", "\r\n"),
        ("a", "\r\n"),
        ("a\r\nb", "\r\n"),
        ("a\r\n", "\r\n"),
        ("\r\na", "\r\n"),
        ("\r\n\r\n", "\r\n"),
        ("a\r\r\nb\n\r\nc", "\r\n"),
        ("GET  /x HTTP/1.1 ", " "),
        ("aaaa", "aa"),
        ("aaa", "aa"),
        ("a:b:c", ":"),
    ] {
        let expected: Vec<String> = text.split(pat).map(|piece| piece.to_string()).collect();
        assert_eq!(split(text, pat), expected);
    }
}

#[test]
fn split_gives_the_pieces_in_order() {
    assert_eq!(split("a\r\nb\r\n", "\r\n"), vec!["a", "b", ""]);
    assert_eq!(split("GET  /x", " "), vec!["GET", "", "/x"]);
}

#[test]
fn white_space_is_trimmed_at_both_ends_only() {
    assert_eq!(trimmed("  a b\t\r\n"), "a b");
    assert_eq!(trimmed("a"), "a");
    assert_eq!(trimmed(""), "");
    assert_eq!(trimmed(" \t\n\u{b}\u{c}\r\u{85}\u{a0}\u{1680}\u{2000}\u{200a}\u{2028}\u{2029}\u{202f}\u{205f}\u{3000}"), "");
    assert_eq!(trimmed("\u{200b}a\u{feff}"), "\u{200b}a\u{feff}");
}

#[test]
fn trim_agrees_with_the_standard_library() {
    for text in ["", " ", "a", " a", "a ", " a b ", "\u{a0}x\u{3000}", "\u{1}x\u{1c}", "\u{180e}y"] {
        assert_eq!(trimmed(text), text.trim());
    }
}

#[test]
fn ascii_capitals_are_lowered_and_nothing_else() {
    assert_eq!(to_ascii_lower('A'), 'a');
    assert_eq!(to_ascii_lower('Z'), 'z');
    assert_eq!(to_ascii_lower('m'), 'm');
    assert_eq!(to_ascii_lower('@'), '@');
    assert_eq!(to_ascii_lower('['), '[');
    assert_eq!(to_ascii_lower('-'), '-');
    assert_eq!(to_ascii_lower('\u{c4}'), '\u{c4}');
    assert_eq!(to_ascii_lower('\u{212a}'), '\u{212a}');
}

#[test]
fn prefix_is_compared_without_regard_to_ascii_case() {
    let key = chars("content-length:");
    assert!(starts_with_ignore_case(&chars("Content-Length: 5"), &key));
    assert!(starts_with_ignore_case(&chars("CONTENT-LENGTH:"), &key));
    assert!(!starts_with_ignore_case(&chars("Content-Length"), &key));
    assert!(!starts_with_ignore_case(&chars("Content_Length: 5"), &key));
    assert!(!starts_with_ignore_case(&chars(""), &key));
    assert!(starts_with_ignore_case(&chars("anything"), &chars("")));
}
