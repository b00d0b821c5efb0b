use desed::text::{
    copy_range, is_whitespace, same_text, split_lines, starts_with, to_chars, to_text, trim,
};

fn chars(s: &str) -> Vec<char> {
    s.chars().collect()
}

fn lines_as_strings(s: &str) -> Vec<String> {
    split_lines(&to_chars(s)).iter().map(to_text).collect()
}

#[test]
fn characters_round_trip() {
    let s = "héllo\n\tw\u{2003}rld ✓";
    assert_eq!(to_chars(s), chars(s));
    assert_eq!(to_text(&to_chars(s)), s);
    assert_eq!(to_chars(""), Vec::<char>::new());
    assert_eq!(to_text(&Vec::new()), "");
}

#[test]
fn white_space_agrees_with_the_standard_library() {
    for n in 0..=0x10FFFFu32 {
        if let Some(c) = char::from_u32(n) {
            assert_eq!(is_whitespace(c), c.is_whitespace(), "U+{:04X}", n);
        }
    }
}

#[test]
fn trim_agrees_with_the_standard_library() {
    let samples = [
        "", " ", "a", "  a  ", "\t\n a b \r\n", "a ", " a", "\u{2003}x\u{3000}", "   ", "x\u{a0}",
        " \u{feff}x ", "a  b",
    ];
    for sample in samples {
        assert_eq!(to_text(&trim(&to_chars(sample))), sample.trim(), "{:?}", sample);
    }
}

#[test]
fn lines_agree_with_the_standard_library() {
    let samples = [
        "", "\n", "a", "a\n", "a\nb", "a\n\nb\n", "a\r\nb\r\n", "a\rb\n", "foo\nbar\n\r\nbaz\r",
        "\r\n", "\r", "\n\n\n", "a\r\r\nb", "last\r",
    ];
    for sample in samples {
        let expected: Vec<String> = sample.lines().map(String::from).collect();
        assert_eq!(lines_as_strings(sample), expected, "{:?}", sample);
    }
}

#[test]
fn lines_by_example() {
    assert_eq!(lines_as_strings("one\ntwo\r\nthree"), vec!["one", "two", "three"]);
    assert_eq!(lines_as_strings("one\n"), vec!["one"]);
    assert_eq!(lines_as_strings("\none"), vec!["", "one"]);
    assert!(lines_as_strings("").is_empty());
}

#[test]
fn prefixes() {
    assert!(starts_with(&chars("INPUT: x"), &chars("INPUT:")));
    assert!(starts_with(&chars("INPUT:"), &chars("INPUT:")));
    assert!(starts_with(&chars("abc"), &chars("")));
    assert!(!starts_with(&chars("INPUT"), &chars("INPUT:")));
    assert!(!starts_with(&chars(" INPUT:"), &chars("INPUT:")));
    assert!(!starts_with(&chars(""), &chars("a")));
}

#[test]
fn equal_texts() {
    assert!(same_text(&chars("abc"), &chars("abc")));
    assert!(same_text(&chars(""), &chars("")));
    assert!(!same_text(&chars("abc"), &chars("abd")));
    assert!(!same_text(&chars("abc"), &chars("ab")));
}

#[test]
fn ranges() {
    let text = chars("hello world");
    assert_eq!(copy_range(&text, 0, 5), chars("hello"));
    assert_eq!(copy_range(&text, 6, 11), chars("world"));
    assert_eq!(copy_range(&text, 3, 3), chars(""));
}
