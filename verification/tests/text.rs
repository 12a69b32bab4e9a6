use shielded_observer::text::{
    chars_of, decimal_text, is_white_space, join2, join3, join4, join5, join6, last_segment,
    same_ignoring_case, same_text, split_words, text_of, to_lower, trim_end_char,
};

#[test]
fn white_space_is_that_of_unicode() {
    for u in 0..=0x10ffffu32 {
        if let Some(c) = char::from_u32(u) {
            assert_eq!(is_white_space(c), c.is_whitespace(), "{:x}", u);
        }
    }
}

#[test]
fn words_are_those_of_std() {
    for s in ["", " ", "a", " a", "a ", "12.3 mph", "\t 5\u{a0}to \n10  mph\u{3000}", "ä ö\u{2028}ü"] {
        let expected: Vec<String> = s.split_whitespace().map(|w| w.to_string()).collect();
        assert_eq!(split_words(s), expected, "{:?}", s);
    }
    assert_eq!(split_words("5 to 10 mph"), vec!["5", "to", "10", "mph"]);
}

#[test]
fn last_segments() {
    for s in ["", "/", "a", "a/", "a/b", "https://api.weather.gov/stations/KSEA", "ü/ö/ä", "//"] {
        assert_eq!(last_segment(s, '/'), s.split('/').last().unwrap_or(s), "{:?}", s);
    }
    assert_eq!(last_segment("https://api.weather.gov/stations/KSEA", '/'), "KSEA");
    assert_eq!(last_segment("KSEA", '/'), "KSEA");
    assert_eq!(last_segment("KSEA/", '/'), "");
}

#[test]
fn trimmed_ends() {
    for s in ["", "°", "270°", "270°°", "°270", "270", "27°0°"] {
        assert_eq!(trim_end_char(s, '°'), s.trim_end_matches('°'), "{:?}", s);
    }
    assert_eq!(trim_end_char("270°°", '°'), "270");
}

#[test]
fn decimal_numbers() {
    for n in [0u64, 1, 9, 10, 11, 99, 100, 1234567890, u64::MAX] {
        assert_eq!(decimal_text(n), n.to_string());
    }
}

#[test]
fn letters_made_small() {
    assert_eq!(to_lower("10PM"), "10pm");
    assert_eq!(to_lower("ÄÖ Zz@[`{"), "ÄÖ zz@[`{");
    assert!(same_ignoring_case("CsV", "csv"));
    assert!(!same_ignoring_case("csv", "cs"));
    assert!(!same_ignoring_case("Ä", "ä"));
}

#[test]
fn texts_joined() {
    assert_eq!(join2("a", "b"), "ab");
    assert_eq!(join3("a", "", "c"), "ac");
    assert_eq!(join4("a", "b", "c", "d"), "abcd");
    assert_eq!(join5("a", "b", "c", "d", "e"), "abcde");
    assert_eq!(join6("a", "b", "c", "d", "e", "°"), "abcde°");
}

#[test]
fn texts_and_their_characters() {
    let chars = chars_of("a°b");
    assert_eq!(chars, vec!['a', '°', 'b']);
    assert_eq!(text_of(&chars, 1, 3), "°b");
    assert_eq!(text_of(&chars, 1, 1), "");
    assert!(same_text("a°b", "a°b"));
    assert!(!same_text("a", "b"));
    assert!(!same_text("a", ""));
}
