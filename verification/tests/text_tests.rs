use xctools::text::{
    char_is_whitespace, chars_eq, chars_lt, chars_of, chars_of_range, contains_substring,
    decimal_string, find_char, matches_at, signed_decimal_string, split_chars, split_lines,
    split_words, starts_with, string_of, string_of_range, trim_bounds,
};

fn chars(text: &str) -> Vec<char> {
    text.chars().collect()
}

fn strings(parts: &[Vec<char>]) -> Vec<String> {
    parts.iter().map(|p| p.iter().collect()).collect()
}

#[test]
fn white_space_is_what_unicode_says() {
    for code in 0u32..0x11000 {
        if let Some(c) = char::from_u32(code) {
            assert_eq!(char_is_whitespace(c), c.is_whitespace(), "U+{:04X}", code);
        }
    }
}

#[test]
fn characters_and_strings_convert_both_ways() {
    assert_eq!(chars_of("héllo ✅"), chars("héllo ✅"));
    assert_eq!(string_of(&chars("héllo ✅")), "héllo ✅");
    assert_eq!(string_of_range(&chars("héllo"), 1, 3), "él");
    assert_eq!(chars_of_range(&chars("héllo"), 2, 5), chars("llo"));
    assert_eq!(chars_of(""), Vec::<char>::new());
}

#[test]
fn the_first_position_of_a_character_is_found() {
    assert_eq!(find_char(&chars("a<b<c"), '<'), Some(1));
    assert_eq!(find_char(&chars("abc"), '<'), None);
    assert_eq!(find_char(&chars(""), '<'), None);
}

#[test]
fn trimming_drops_white_space_at_both_ends() {
    let text = chars(" \t John  Doe \n");
    assert_eq!(trim_bounds(&text, 0, text.len()), (3, 12));
    assert_eq!(trim_bounds(&text, 0, 2), (2, 2));
    let none = chars("abc");
    assert_eq!(trim_bounds(&none, 0, 3), (0, 3));
}

#[test]
fn splitting_keeps_empty_pieces() {
    assert_eq!(
        strings(&split_chars(&chars("https://github.com/acme/widget"), '/')),
        vec!["https:", "", "github.com", "acme", "widget"]
    );
    assert_eq!(strings(&split_chars(&chars(""), '/')), vec![""]);
    assert_eq!(strings(&split_chars(&chars("/"), '/')), vec!["", ""]);
    assert_eq!(strings(&split_chars(&chars("abc"), '/')), vec!["abc"]);
}

#[test]
fn words_are_the_runs_without_white_space() {
    assert_eq!(
        strings(&split_words(&chars("  John   Doe\tSmith "))),
        vec!["John", "Doe", "Smith"]
    );
    assert!(split_words(&chars(" \n ")).is_empty());
    assert!(split_words(&chars("")).is_empty());
    assert_eq!(strings(&split_words(&chars("one"))), vec!["one"]);
}

#[test]
fn lines_end_at_line_feeds() {
    assert_eq!(split_lines("a\nb\r\nc"), vec!["a", "b", "c"]);
    assert_eq!(split_lines("a\n\nb\n"), vec!["a", "", "b"]);
    assert_eq!(split_lines("a\r"), vec!["a\r"]);
    assert_eq!(split_lines("\n"), vec![""]);
    assert!(split_lines("").is_empty());
    for text in ["a\nb\r\nc", "a\n\nb\n", "a\r", "\n", "", "x\r\n\r\ny\r", "\r\n"] {
        let expected: Vec<String> = text.lines().map(|l| l.to_string()).collect();
        assert_eq!(split_lines(text), expected);
    }
}

#[test]
fn prefixes_and_substrings_are_found() {
    assert!(starts_with(&chars("MyApp-abc"), &chars("MyApp-")));
    assert!(starts_with(&chars("MyApp-"), &chars("MyApp-")));
    assert!(starts_with(&chars("x"), &chars("")));
    assert!(!starts_with(&chars("MyApp"), &chars("MyApp-")));
    assert!(!starts_with(&chars("YourApp-abc"), &chars("MyApp-")));
    assert!(contains_substring(&chars("my license file"), &chars("license")));
    assert!(contains_substring(&chars("license"), &chars("license")));
    assert!(contains_substring(&chars("abc"), &chars("")));
    assert!(!contains_substring(&chars("licens"), &chars("license")));
    assert!(matches_at(&chars("abcabc"), &chars("ca"), 2));
    assert!(!matches_at(&chars("abcabc"), &chars("ca"), 1));
}

#[test]
fn the_order_is_that_of_strings() {
    let samples = ["", "a", "A", "ab", "b", "aa", "é", "z", "Z", "abc", "abd", "✅"];
    for a in samples {
        for b in samples {
            assert_eq!(chars_lt(&chars(a), &chars(b)), a < b, "{:?} < {:?}", a, b);
            assert_eq!(chars_eq(&chars(a), &chars(b)), a == b);
        }
    }
}

#[test]
fn numbers_are_written_in_decimal() {
    assert_eq!(decimal_string(0), "0");
    assert_eq!(decimal_string(7), "7");
    assert_eq!(decimal_string(10), "10");
    assert_eq!(decimal_string(1234567890), "1234567890");
    assert_eq!(decimal_string(u128::MAX), u128::MAX.to_string());
    assert_eq!(signed_decimal_string(0), "0");
    assert_eq!(signed_decimal_string(42), "42");
    assert_eq!(signed_decimal_string(-42), "-42");
    assert_eq!(signed_decimal_string(i64::MIN), i64::MIN.to_string());
    assert_eq!(signed_decimal_string(i64::MAX), i64::MAX.to_string());
}
