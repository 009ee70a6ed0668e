use onion_monitor::numeral::decimal_text;
use onion_monitor::text::{ends_with, is_space, starts_with, text_eq, text_lt};

#[test]
fn equality_compares_every_character() {
    assert!(text_eq("", ""));
    assert!(text_eq("abc", "abc"));
    assert!(!text_eq("abc", "abd"));
    assert!(!text_eq("abc", "ab"));
    assert!(!text_eq("ab", "abc"));
}

#[test]
fn ordering_agrees_with_the_ordering_of_strings() {
    let samples = ["", "A", "Alpha", "Bravo", "alpha", "a", "ab", "b", "é", "z", "日本", "\u{10ffff}", "Z"];
    for a in samples.iter() {
        for b in samples.iter() {
            assert_eq!(text_lt(a, b), a < b, "{:?} < {:?}", a, b);
        }
    }
}

#[test]
fn prefixes_and_suffixes() {
    assert!(starts_with("http://x.onion", "http://"));
    assert!(!starts_with("http:/", "http://"));
    assert!(starts_with("anything", ""));
    assert!(!starts_with("ftp://x", "http://"));
    assert!(ends_with("list.json", ".json"));
    assert!(!ends_with("json", ".json"));
    assert!(ends_with("x", ""));
    assert!(!ends_with("list.jsonl", ".json"));
}

#[test]
fn white_space_is_what_the_standard_library_calls_white_space() {
    let mut code: u32 = 0;
    while code <= 0x10ffff {
        if let Some(c) = char::from_u32(code) {
            assert_eq!(is_space(c), c.is_whitespace(), "U+{:04X}", code);
        }
        code += 1;
    }
}

#[test]
fn decimal_numerals() {
    assert_eq!(decimal_text(0), "0");
    assert_eq!(decimal_text(7), "7");
    assert_eq!(decimal_text(10), "10");
    assert_eq!(decimal_text(503), "503");
    assert_eq!(decimal_text(65535), "65535");
    assert_eq!(decimal_text(u64::MAX), "18446744073709551615");
}
