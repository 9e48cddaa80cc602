use music_downloader::text::{
    chars_of, decimal_string, first_two_fields, same_text, slice_text, trim_text, white_space,
};

#[test]
fn decimal_text_of_numbers() {
    for n in [0u64, 7, 10, 42, 100, 12345, 9_999_999, u64::MAX] {
        assert_eq!(decimal_string(n), n.to_string());
    }
}

#[test]
fn trimming_matches_str_trim() {
    for s in ["", "  ", " a ", "\u{2003}b\u{2029}", "x y", "\u{85}z\u{1680}", "é "] {
        assert_eq!(trim_text(s), s.trim());
    }
}

#[test]
fn white_space_matches_char_is_whitespace() {
    for c in ['\t', '\n', '\u{b}', '\u{c}', '\r', ' ', '\u{85}', '\u{a0}', '\u{1680}', '\u{2000}', '\u{200a}', '\u{2028}', '\u{2029}', '\u{202f}', '\u{205f}', '\u{3000}', 'a', '\u{200b}', '\u{feff}', '_'] {
        assert_eq!(white_space(c), c.is_whitespace());
    }
}

#[test]
fn fields_and_slices() {
    assert_eq!(first_two_fields("a|b|c", '|'), ("a".to_string(), Some("b".to_string())));
    assert_eq!(first_two_fields("abc", '|'), ("abc".to_string(), None));
    assert_eq!(first_two_fields("a|", '|'), ("a".to_string(), Some(String::new())));
    assert_eq!(slice_text("héllo", 1, 4), "éll");
    assert_eq!(chars_of("hé"), vec!['h', 'é']);
    assert!(same_text("mp3", "mp3"));
    assert!(!same_text("mp3", "mp4"));
}
