use pwm::entries::has_duplicate_name;
use pwm::model::PasswordEntry;
use pwm::text::{
    char_is_whitespace, chars_eq, chars_of, contains_chars, is_ascii_digit, parse_usize, split_words,
    starts_with, trim_chars, usize_to_chars, usize_to_string,
};

fn cs(s: &str) -> Vec<char> {
    s.chars().collect()
}

#[test]
fn whitespace_agrees_with_std_for_every_char() {
    for u in 0u32..=0x10FFFF {
        if let Some(c) = char::from_u32(u) {
            assert_eq!(char_is_whitespace(c), c.is_whitespace(), "U+{:04X}", u);
        }
    }
}

#[test]
fn ascii_digit_agrees_with_std() {
    for u in 0u32..0x300 {
        if let Some(c) = char::from_u32(u) {
            assert_eq!(is_ascii_digit(c), c.is_ascii_digit());
        }
    }
}

#[test]
fn names_compare_by_std_lowercase() {
    for (stored, typed) in [("ÄBC İ", "äbc i\u{307}"), ("GitHub", "GITHUB"), ("ΣΑΣ", "σας")] {
        assert_eq!(stored.to_lowercase(), typed.to_lowercase());
        let es = vec![PasswordEntry { name: stored.to_string(), password: String::new() }];
        assert!(has_duplicate_name(&es, typed, None));
    }
    let es = vec![PasswordEntry { name: "GitHub".to_string(), password: String::new() }];
    assert!(!has_duplicate_name(&es, "GitLab", None));
}

#[test]
fn chars_in_order() {
    assert_eq!(chars_of("héllo"), cs("héllo"));
    assert_eq!(chars_of(""), Vec::<char>::new());
}

#[test]
fn trim_like_str_trim() {
    for s in ["  a b  ", "\u{3000}x\t\n", "", "   ", "ab"] {
        assert_eq!(trim_chars(&cs(s)), cs(s.trim()));
    }
}

#[test]
fn split_words_like_split_whitespace() {
    for s in ["  get   x -p ", "", "one", "a\u{a0}b\tc"] {
        let expected: Vec<Vec<char>> = s.split_whitespace().map(cs).collect();
        assert_eq!(split_words(&cs(s)), expected);
    }
}

#[test]
fn prefix_and_containment() {
    assert!(starts_with(&cs("<cmd>list"), &cs("<cmd>")));
    assert!(!starts_with(&cs("<cm"), &cs("<cmd>")));
    assert!(contains_chars(&cs("github"), &cs("hub")));
    assert!(contains_chars(&cs("github"), &cs("")));
    assert!(!contains_chars(&cs("github"), &cs("lab")));
    assert!(chars_eq(&cs("ab"), &cs("ab")));
    assert!(!chars_eq(&cs("ab"), &cs("abc")));
}

#[test]
fn parse_usize_like_std() {
    for s in ["0", "12", "+12", "", "+", "-1", "12a", " 1", "18446744073709551615", "18446744073709551616", "007"] {
        assert_eq!(parse_usize(&cs(s)), s.parse::<usize>().ok(), "{:?}", s);
    }
}

#[test]
fn decimal_strings() {
    assert_eq!(usize_to_string(0), "0");
    assert_eq!(usize_to_string(12345), "12345");
    assert_eq!(usize_to_string(usize::MAX), usize::MAX.to_string());
    assert_eq!(usize_to_chars(907), cs("907"));
}

#[test]
fn decimal_round_trip() {
    for n in [0usize, 7, 10, 99, 100, 65535, usize::MAX] {
        assert_eq!(parse_usize(&usize_to_chars(n)), Some(n));
    }
}
