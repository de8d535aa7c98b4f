use fileshare::extensions::StringExtraTrait;
use fileshare::text::{
    chars_of, eq_ignore_ascii_case, join_strings, replace_str, split_chars, string_of,
    to_ascii_lowercase, trim_chars, utf8_len_over_two,
};

fn text(v: &Vec<char>) -> String {
    v.iter().collect()
}

#[test]
fn with_ext_appends_extension() {
    assert_eq!("photo".to_string().with_ext("png"), "photo.png");
}

#[test]
fn with_ext_keeps_name_without_extension() {
    assert_eq!("photo".to_string().with_ext(""), "photo");
}

#[test]
fn replace_all_occurrences() {
    assert_eq!(replace_str("a/preview/b/preview", "/preview", ""), "a/b");
    assert_eq!(replace_str("aaa", "aa", "b"), "ba");
    assert_eq!(replace_str("none here", "xyz", "q"), "none here");
}

#[test]
fn trim_unicode_whitespace() {
    let v = chars_of("\u{3000}\t token \r\n\u{a0}");
    assert_eq!(text(&trim_chars(&v)), "token");
    assert_eq!(text(&trim_chars(&chars_of("   "))), "");
}

#[test]
fn split_keeps_empty_pieces() {
    let pieces = split_chars(&chars_of("a,,b,"), ',');
    let texts: Vec<String> = pieces.iter().map(text).collect();
    assert_eq!(texts, vec!["a", "", "b", ""]);
    assert_eq!(split_chars(&chars_of(""), ',').len(), 1);
}

#[test]
fn ascii_case_handling() {
    assert_eq!(to_ascii_lowercase("DiscordBot/2.0 ÄÖ"), "discordbot/2.0 ÄÖ");
    assert!(eq_ignore_ascii_case(&chars_of("Image/PNG"), &chars_of("image/png")));
    assert!(!eq_ignore_ascii_case(&chars_of("image/png"), &chars_of("image/pn")));
}

#[test]
fn utf8_length_threshold() {
    assert!(!utf8_len_over_two(&chars_of("ab")));
    assert!(utf8_len_over_two(&chars_of("abc")));
    assert!(utf8_len_over_two(&chars_of("aé")));
    assert!(!utf8_len_over_two(&chars_of("é")));
    assert!(utf8_len_over_two(&chars_of("€")));
}

#[test]
fn join_with_newlines() {
    let lines = vec!["one".to_string(), "two".to_string(), "three".to_string()];
    assert_eq!(join_strings(&lines, "\n"), "one\ntwo\nthree");
    assert_eq!(join_strings(&Vec::new(), "\n"), "");
    assert_eq!(string_of(&vec!['x', 'y']), "xy");
}
