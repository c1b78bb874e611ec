use plex_media_ingest::candidate::{Candidate, MediaKind};
use plex_media_ingest::episode::EpisodeRef;
use plex_media_ingest::paths::{
    destination, join_root, relative_destination, year_from_date, ExtraKind, Naming, Placement,
};

fn film(title: &str, id: i32, date: Option<&str>) -> Candidate {
    Candidate {
        id,
        title: title.to_string(),
        original_language: Some("en".to_string()),
        release_date: date.map(|d| d.to_string()),
        kind: MediaKind::Movie,
    }
}

fn series(title: &str, id: i32, date: Option<&str>) -> Candidate {
    Candidate { kind: MediaKind::Show, ..film(title, id, date) }
}

fn naming(title: &str, year: Option<&str>, id: i32) -> Naming {
    Naming { title: title.to_string(), year: year.map(|y| y.to_string()), id }
}

#[test]
fn feature_path_of_the_matrix() {
    let n = Naming::of(&film("The Matrix", 603, Some("1999-03-31")));
    assert_eq!(
        destination("", &n, &Placement::Feature, "mkv"),
        "Movies/The Matrix (1999){tmdb-603}/The Matrix (1999){tmdb-603}.mkv"
    );
}

#[test]
fn path_synthesis_gives_the_same_path_twice() {
    let n = Naming::of(&film("The Matrix", 603, Some("1999-03-31")));
    let first = destination("/library", &n, &Placement::Feature, "mkv");
    let second = destination("/library", &n, &Placement::Feature, "mkv");
    assert_eq!(first, second);
    let again = destination(
        "/library",
        &Naming::of(&film("The Matrix", 603, Some("1999-03-31"))),
        &Placement::Feature,
        "mkv",
    );
    assert_eq!(first, again);
}

#[test]
fn episode_path_of_breaking_bad() {
    let n = Naming::of(&series("Breaking Bad", 1396, Some("2008-01-20")));
    let place = Placement::Episode { episode: EpisodeRef { season: 1, episode: 1 } };
    assert_eq!(
        destination("", &n, &place, "mkv"),
        "TV Shows/Breaking Bad (2008){tmdb-1396}/Season 01/Breaking Bad - S01E01.mkv"
    );
}

#[test]
fn naming_takes_year_and_identifier_from_the_candidate() {
    let n = Naming::of(&film("Alien", 348, Some("1979-05-25")));
    assert_eq!(n, naming("Alien", Some("1979"), 348));
    let undated = Naming::of(&film("Alien", 348, None));
    assert_eq!(undated, naming("Alien", None, 348));
}

#[test]
fn naming_cleans_the_title() {
    let n = Naming::of(&film("Face/Off", 754, Some("1997-06-27")));
    assert_ne!(n.title, "Face/Off");
    assert!(!n.title.contains('/'));
    assert!(!n.title.is_empty());
    let blank = Naming::of(&film("", 1, None));
    assert_eq!(blank.title, "_");
}

#[test]
fn year_is_what_precedes_the_first_hyphen() {
    assert_eq!(year_from_date("1999-03-31"), "1999");
    assert_eq!(year_from_date("1999"), "1999");
    assert_eq!(year_from_date(""), "");
    assert_eq!(year_from_date("-03-31"), "");
    assert_eq!(year_from_date("19-99-03"), "19");
}

#[test]
fn feature_without_a_date_has_no_year_segment() {
    let n = naming("Alien", None, 348);
    assert_eq!(
        relative_destination(&n, &Placement::Feature, "mkv"),
        "Movies/Alien {tmdb-348}/Alien {tmdb-348}.mkv"
    );
}

#[test]
fn feature_with_an_empty_date_has_an_empty_year() {
    let n = Naming::of(&film("Alien", 348, Some("")));
    assert_eq!(
        relative_destination(&n, &Placement::Feature, "mkv"),
        "Movies/Alien (){tmdb-348}/Alien (){tmdb-348}.mkv"
    );
}

#[test]
fn edition_is_tagged_before_the_extension() {
    let n = naming("Blade Runner", Some("1982"), 78);
    let place = Placement::Edition { label: "Director's Cut".to_string() };
    assert_eq!(
        relative_destination(&n, &place, "mkv"),
        "Movies/Blade Runner (1982){tmdb-78}/Blade Runner (1982){tmdb-78}{edition-Director's Cut}.mkv"
    );
}

#[test]
fn extras_go_into_the_folder_of_their_kind() {
    let n = naming("Blade Runner", Some("1982"), 78);
    let place = Placement::Extra {
        kind: ExtraKind::BehindTheScenes,
        description: "On the set".to_string(),
    };
    assert_eq!(
        relative_destination(&n, &place, "mp4"),
        "Movies/Blade Runner (1982){tmdb-78}/Behind The Scenes/On the set.mp4"
    );
    let trailer = Placement::Extra { kind: ExtraKind::Trailers, description: "Teaser".to_string() };
    assert_eq!(
        relative_destination(&n, &trailer, "mov"),
        "Movies/Blade Runner (1982){tmdb-78}/Trailers/Teaser.mov"
    );
}

#[test]
fn every_kind_of_extra_has_its_name() {
    let names: Vec<&str> = ExtraKind::all().iter().map(|k| k.name()).collect();
    assert_eq!(
        names,
        vec![
            "Ignore",
            "Edition",
            "Behind The Scenes",
            "Deleted Scenes",
            "Featurettes",
            "Interviews",
            "Scenes",
            "Shorts",
            "Trailers",
            "Other"
        ]
    );
}

#[test]
fn film_subtitle_carries_language_and_forced_mark() {
    let n = naming("Blade Runner", Some("1982"), 78);
    let plain = Placement::Subtitle { language: "EN".to_string(), forced: false };
    assert_eq!(
        relative_destination(&n, &plain, "srt"),
        "Movies/Blade Runner (1982){tmdb-78}/Blade Runner(1982){tmdb-78}.en.srt"
    );
    let forced = Placement::Subtitle { language: "de".to_string(), forced: true };
    assert_eq!(
        relative_destination(&n, &forced, "ass"),
        "Movies/Blade Runner (1982){tmdb-78}/Blade Runner(1982){tmdb-78}.de.forced.ass"
    );
}

#[test]
fn film_subtitle_without_a_date() {
    let n = naming("Alien", None, 348);
    let plain = Placement::Subtitle { language: "en".to_string(), forced: false };
    assert_eq!(
        relative_destination(&n, &plain, "srt"),
        "Movies/Alien {tmdb-348}/Alien{tmdb-348}.en.srt"
    );
}

#[test]
fn series_without_a_date_has_no_year_segment() {
    let n = naming("Lost", None, 4607);
    let place = Placement::Episode { episode: EpisodeRef { season: 1, episode: 2 } };
    assert_eq!(
        relative_destination(&n, &place, "mkv"),
        "TV Shows/Lost {tmdb-4607}/Season 01/Lost - S01E02.mkv"
    );
}

#[test]
fn episode_numbers_are_padded_to_two_digits() {
    let n = naming("Lost", Some("2004"), 4607);
    let place = Placement::Episode { episode: EpisodeRef { season: 3, episode: 12 } };
    assert_eq!(
        relative_destination(&n, &place, "mkv"),
        "TV Shows/Lost (2004){tmdb-4607}/Season 03/Lost - S03E12.mkv"
    );
    let long = Placement::Episode { episode: EpisodeRef { season: 10, episode: 123 } };
    assert_eq!(
        relative_destination(&n, &long, "mkv"),
        "TV Shows/Lost (2004){tmdb-4607}/Season 10/Lost - S10E123.mkv"
    );
    let zero = Placement::Episode { episode: EpisodeRef { season: 0, episode: 0 } };
    assert_eq!(
        relative_destination(&n, &zero, "mkv"),
        "TV Shows/Lost (2004){tmdb-4607}/Season 00/Lost - S00E00.mkv"
    );
}

#[test]
fn episode_subtitle_sits_beside_the_episode() {
    let n = naming("Lost", Some("2004"), 4607);
    let episode = EpisodeRef { season: 1, episode: 2 };
    let plain = Placement::EpisodeSubtitle { episode, language: "En".to_string(), forced: false };
    assert_eq!(
        relative_destination(&n, &plain, "srt"),
        "TV Shows/Lost (2004){tmdb-4607}/Season 01/Lost - S01E02.en.srt"
    );
    let forced = Placement::EpisodeSubtitle { episode, language: "fr".to_string(), forced: true };
    assert_eq!(
        relative_destination(&n, &forced, "srt"),
        "TV Shows/Lost (2004){tmdb-4607}/Season 01/Lost - S01E02.fr.forced.srt"
    );
}

#[test]
fn file_without_extension_ends_in_a_full_stop() {
    let n = naming("Alien", Some("1979"), 348);
    assert_eq!(
        relative_destination(&n, &Placement::Feature, ""),
        "Movies/Alien (1979){tmdb-348}/Alien (1979){tmdb-348}."
    );
}

#[test]
fn negative_identifier_keeps_its_sign() {
    let n = naming("Odd", None, -7);
    assert_eq!(relative_destination(&n, &Placement::Feature, "mkv"), "Movies/Odd {tmdb--7}/Odd {tmdb--7}.mkv");
}

#[test]
fn root_and_path_are_joined_with_one_slash() {
    assert_eq!(join_root("", "Movies/x".to_string()), "Movies/x");
    assert_eq!(join_root("/library", "Movies/x".to_string()), "/library/Movies/x");
    assert_eq!(join_root("/library/", "Movies/x".to_string()), "/library/Movies/x");
    assert_eq!(join_root("/", "Movies/x".to_string()), "/Movies/x");
    assert_eq!(join_root("relative/root", "TV Shows/y".to_string()), "relative/root/TV Shows/y");
}

#[test]
fn destination_lies_below_the_root() {
    let n = naming("Alien", Some("1979"), 348);
    assert_eq!(
        destination("/media/plex", &n, &Placement::Feature, "mkv"),
        "/media/plex/Movies/Alien (1979){tmdb-348}/Alien (1979){tmdb-348}.mkv"
    );
}
