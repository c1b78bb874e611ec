use plex_media_ingest::media::{token_valid, tokenize_file_name, tokenize_media_name};

fn tokens(name: &str) -> Vec<String> {
    tokenize_media_name(name.to_string())
}

#[test]
fn noise_only_name_has_no_tokens_after_extension_drop() {
    let mut found = tokens("[Sample].mkv");
    assert_eq!(found, vec!["mkv".to_string()]);
    found.pop();
    assert!(found.is_empty());
}

#[test]
fn name_of_noise_alone_gives_nothing() {
    assert!(tokens("1080p.BluRay.x264-[GROUP]").is_empty());
    assert!(tokens("sample").is_empty());
}

#[test]
fn release_tags_are_dropped_and_order_is_kept() {
    assert_eq!(
        tokens("The.Matrix.1999.1080p.BluRay.x264.mkv"),
        vec!["The", "Matrix", "1999", "mkv"]
    );
}

#[test]
fn every_separator_splits() {
    assert_eq!(tokens("a-b c:d@e.f"), vec!["a", "b", "c", "d", "e", "f"]);
}

#[test]
fn neighbouring_separators_leave_empty_tokens() {
    assert_eq!(tokens("a--b"), vec!["a", "", "b"]);
    assert_eq!(tokens(""), vec![""]);
    assert_eq!(tokens("."), vec!["", ""]);
}

#[test]
fn noise_words_match_in_any_case() {
    assert!(!token_valid("DVD"));
    assert!(!token_valid("BluRay"));
    assert!(!token_valid("aac5"));
    assert!(!token_valid("AAC"));
    assert!(!token_valid("Ac3"));
    assert!(!token_valid("HEVC"));
    assert!(!token_valid("Sample"));
    assert!(!token_valid("internal"));
    assert!(!token_valid("ma"));
    assert!(!token_valid("td"));
}

#[test]
fn whole_vocabulary_is_noise() {
    let words = [
        "dvd", "bluray", "webrip", "youtube", "download", "web", "uhd", "hd", "tv", "tvrip",
        "1080p", "1080i", "2160p", "x264", "x265", "h265", "dts", "hevc", "10bit", "12bit", "hdr",
        "xvid", "AAC5", "AAC", "AC3", "remux", "atmos", "pdtv", "td", "internal", "ma", "sample",
    ];
    for word in words {
        assert!(!token_valid(word), "{}", word);
    }
}

#[test]
fn words_of_a_title_are_kept() {
    assert!(token_valid("Matrix"));
    assert!(token_valid("1999"));
    assert!(token_valid(""));
    assert!(token_valid("dvds"));
    assert!(token_valid("h264"));
    assert!(token_valid("720p"));
}

#[test]
fn bracketed_tokens_are_noise() {
    assert!(!token_valid("[group]"));
    assert!(!token_valid("[open"));
    assert!(!token_valid("close]"));
    assert!(!token_valid("(2010)"));
    assert!(!token_valid("(open"));
    assert!(!token_valid("close)"));
    assert!(!token_valid("{tag}"));
    assert!(!token_valid("{"));
    assert!(token_valid("mid[dle"));
}

#[test]
fn season_markers_are_noise() {
    assert!(!token_valid("S01"));
    assert!(!token_valid("s12"));
    assert!(token_valid("S1"));
    assert!(token_valid("S001"));
    assert!(token_valid("S0x"));
    assert!(token_valid("T01"));
    assert_eq!(tokens("Show.S01.720p"), vec!["Show", "720p"]);
}

#[test]
fn bracket_split_by_a_separator_loses_both_halves_only() {
    assert_eq!(tokens("Film [Dir Cut] 2001"), vec!["Film", "2001"]);
    assert_eq!(tokens("Film [a b c] 2001"), vec!["Film", "b", "2001"]);
}

#[test]
fn file_name_loses_its_last_token() {
    assert_eq!(tokenize_file_name("The.Matrix.1999.1080p.mkv"), vec!["The", "Matrix", "1999"]);
    assert_eq!(tokenize_file_name("Alien"), Vec::<String>::new());
    assert_eq!(tokenize_file_name("Alien.1979"), vec!["Alien"]);
}

#[test]
fn file_name_of_noise_before_its_extension_has_no_tokens() {
    assert!(tokenize_file_name("[Sample].mkv").is_empty());
    assert!(tokenize_file_name("1080p.x264-[GRP].mkv").is_empty());
    assert!(tokenize_file_name("sample.1080p").is_empty());
    assert!(tokenize_file_name("(a)").is_empty());
}
