use plex_media_ingest::episode::{episode_from_groups, extract_episode, EpisodeRef};

fn ep(season: u32, episode: u32) -> Option<EpisodeRef> {
    Some(EpisodeRef { season, episode })
}

fn groups(a: Option<&str>, b: Option<&str>, c: Option<&str>, d: Option<&str>) -> Vec<Option<String>> {
    vec![
        a.map(|s| s.to_string()),
        b.map(|s| s.to_string()),
        c.map(|s| s.to_string()),
        d.map(|s| s.to_string()),
    ]
}

#[test]
fn season_and_episode_in_s_e_form() {
    assert_eq!(extract_episode("Show.S01E01.mkv"), ep(1, 1));
    assert_eq!(extract_episode("/shows/Breaking Bad/Breaking.Bad.S05E14.Ozymandias.mkv"), ep(5, 14));
    assert_eq!(extract_episode("S1E2"), ep(1, 2));
    assert_eq!(extract_episode("S0010E0200.avi"), ep(10, 200));
}

#[test]
fn season_and_episode_in_x_form() {
    assert_eq!(extract_episode("Show 1x01.mkv"), ep(1, 1));
    assert_eq!(extract_episode("12x34"), ep(12, 34));
}

#[test]
fn extraction_ignores_case() {
    assert_eq!(extract_episode("show.s01e01.mkv"), ep(1, 1));
    assert_eq!(extract_episode("show.s02E03.mkv"), ep(2, 3));
    assert_eq!(extract_episode("Show 3X07.mkv"), ep(3, 7));
}

#[test]
fn full_stop_between_season_and_episode() {
    assert_eq!(extract_episode("Show.S01.E02.mkv"), ep(1, 2));
}

#[test]
fn names_without_the_pattern_are_rejected() {
    assert_eq!(extract_episode("The Matrix (1999).mkv"), None);
    assert_eq!(extract_episode(""), None);
    assert_eq!(extract_episode("Season 1 Episode 2.mkv"), None);
    assert_eq!(extract_episode("S01.mkv"), None);
    assert_eq!(extract_episode("SxE"), None);
}

#[test]
fn first_match_in_the_path_wins() {
    assert_eq!(extract_episode("/tv/Show 2x01/S01E02.mkv"), ep(2, 1));
    assert_eq!(extract_episode("S01E02 and S03E04"), ep(1, 2));
}

#[test]
fn numbers_too_large_are_rejected() {
    assert_eq!(extract_episode("S99999999999E01"), None);
    assert_eq!(extract_episode("1x99999999999"), None);
    assert_eq!(extract_episode("S4294967295E4294967295"), ep(u32::MAX, u32::MAX));
}

#[test]
fn groups_of_the_first_form_win() {
    assert_eq!(episode_from_groups(&groups(Some("01"), Some("02"), None, None)), ep(1, 2));
    assert_eq!(episode_from_groups(&groups(None, None, Some("3"), Some("04"))), ep(3, 4));
    assert_eq!(
        episode_from_groups(&groups(Some("1"), Some("2"), Some("3"), Some("4"))),
        ep(1, 2)
    );
    assert_eq!(episode_from_groups(&groups(Some("1"), None, None, Some("4"))), ep(1, 4));
}

#[test]
fn groups_that_are_no_numbers_give_no_episode() {
    assert_eq!(episode_from_groups(&groups(None, None, None, None)), None);
    assert_eq!(episode_from_groups(&groups(Some("1"), None, None, None)), None);
    assert_eq!(episode_from_groups(&groups(Some("x"), Some("2"), None, None)), None);
    assert_eq!(episode_from_groups(&groups(Some(""), Some("2"), Some("1"), None)), None);
    assert_eq!(episode_from_groups(&groups(Some("1"), Some("4294967296"), None, None)), None);
}

#[test]
fn other_than_four_groups_give_no_episode() {
    assert_eq!(episode_from_groups(&Vec::new()), None);
    assert_eq!(episode_from_groups(&vec![Some("1".to_string()), Some("2".to_string())]), None);
    let five = vec![
        Some("1".to_string()),
        Some("2".to_string()),
        None,
        None,
        None,
    ];
    assert_eq!(episode_from_groups(&five), None);
}
