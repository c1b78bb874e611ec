use plex_media_ingest::candidate::{Candidate, MediaKind};
use plex_media_ingest::text::{
    chars_eq_ignore_case, chars_of, contains_ignoring_case, copy_str, push_chars,
    str_eq_ignore_case, string_of, to_ascii_lowercase, to_lower_char,
};

#[test]
fn only_ascii_capitals_are_lowered() {
    assert_eq!(to_lower_char('A'), 'a');
    assert_eq!(to_lower_char('Z'), 'z');
    assert_eq!(to_lower_char('a'), 'a');
    assert_eq!(to_lower_char('@'), '@');
    assert_eq!(to_lower_char('['), '[');
    assert_eq!(to_lower_char('É'), 'É');
    assert_eq!(to_lower_char('1'), '1');
    assert_eq!(to_ascii_lowercase("Hello WORLD 123 É"), "hello world 123 É");
    assert_eq!(to_ascii_lowercase(""), "");
}

#[test]
fn strings_and_characters_convert_both_ways() {
    assert_eq!(chars_of("aé€"), vec!['a', 'é', '€']);
    assert_eq!(string_of(&vec!['a', 'é', '€']), "aé€");
    assert_eq!(string_of(&chars_of("round trip")), "round trip");
    assert_eq!(copy_str("copy"), "copy");
    let mut s = "ab".to_string();
    push_chars(&mut s, &vec!['c', 'd']);
    assert_eq!(s, "abcd");
}

#[test]
fn comparison_ignores_ascii_case_only() {
    assert!(str_eq_ignore_case("BluRay", "bluray"));
    assert!(str_eq_ignore_case("", ""));
    assert!(!str_eq_ignore_case("bluray", "blu-ray"));
    assert!(!str_eq_ignore_case("a", "ab"));
    assert!(!str_eq_ignore_case("é", "É"));
    assert!(!str_eq_ignore_case("@", "`"));
    assert!(chars_eq_ignore_case(&vec!['S', 'r', 'T'], &vec!['s', 'R', 't']));
}

#[test]
fn search_looks_in_the_lowered_text() {
    assert!(contains_ignoring_case("/rips/SAMPLE/a.mkv", "sample"));
    assert!(contains_ignoring_case("Sample", "sample"));
    assert!(contains_ignoring_case("xsamplex", "sample"));
    assert!(contains_ignoring_case("anything", ""));
    assert!(contains_ignoring_case("", ""));
    assert!(!contains_ignoring_case("", "sample"));
    assert!(!contains_ignoring_case("sampl", "sample"));
    assert!(!contains_ignoring_case("sam ple", "sample"));
    assert!(!contains_ignoring_case("sample", "SAMPLE"));
}

#[test]
fn candidate_label_shows_title_date_language_and_identifier() {
    let known = Candidate {
        id: 603,
        title: "The Matrix".to_string(),
        original_language: Some("en".to_string()),
        release_date: Some("1999-03-31".to_string()),
        kind: MediaKind::Movie,
    };
    assert_eq!(known.label(), "The Matrix (1999-03-31, en) (ID: 603)");
    let undated = Candidate { release_date: None, ..known };
    assert_eq!(undated.label(), "The Matrix (unknown, en) (ID: 603)");
}
