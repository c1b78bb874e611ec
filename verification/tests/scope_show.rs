use plex_media_ingest::candidate::{Candidate, MediaKind};
use plex_media_ingest::entry::{Entry, EntryKind};
use plex_media_ingest::media::Move;
use plex_media_ingest::classify::SkipReason;
use plex_media_ingest::config::Config;
use plex_media_ingest::directory::search_path;
use plex_media_ingest::scope::{Event, Request, Scope, Skipped};
use plex_media_ingest::search::{ResolutionFailure, SearchOutcome, SearchResponse};

fn clip() -> Option<Vec<u8>> {
    Some(b"RIFF\x00\x00\x00\x00AVI LIST".to_vec())
}

fn plain() -> Option<Vec<u8>> {
    Some(b"1\n00:00:01,000 --> 00:00:02,000\nHello\n".to_vec())
}

fn item(path: &str, size: u64, kind: EntryKind) -> Entry {
    let name = path.rsplit('/').next().unwrap().to_string();
    let (stem, extension) = match name.rfind('.') {
        Some(dot) if dot > 0 => (name[..dot].to_string(), Some(name[dot + 1..].to_string())),
        _ => (name.clone(), None),
    };
    Entry { path: path.to_string(), name, stem, extension, size, kind }
}

fn episode_file(path: &str, size: u64) -> Entry {
    item(path, size, EntryKind::File)
}

fn season(path: &str) -> Entry {
    item(path, 0, EntryKind::Directory)
}

fn breaking_bad() -> Candidate {
    Candidate {
        id: 1396,
        title: "Breaking Bad".to_string(),
        original_language: Some("en".to_string()),
        release_date: Some("2008-01-20".to_string()),
        kind: MediaKind::Show,
    }
}

fn answer(list: Vec<Candidate>) -> Event {
    let total_results = list.len() as i32;
    Event::Searched(SearchOutcome::Answer(SearchResponse { results: list, total_results }))
}

fn empty_answer() -> Event {
    Event::Searched(SearchOutcome::Answer(SearchResponse { results: Vec::new(), total_results: 0 }))
}

fn open_show(directory: &str, entries: Vec<Entry>) -> Scope {
    let name = directory.rsplit('/').next().unwrap();
    search_path(directory.to_string(), name, entries, &settings(), true)
}

fn settings() -> Config {
    Config { tmdb_key: "secret".to_string(), plex_library: "/lib".to_string() }
}

fn search(query: &str) -> Request {
    Request::Search { url: tv_url(query), authorization: "Bearer secret".to_string() }
}

fn tv_url(query: &str) -> String {
    format!(
        "https://api.themoviedb.org/3/search/tv?query={}&include_adult=false&language=en-US&page=1",
        query
    )
}

fn gone(path: &str, reason: SkipReason) -> Skipped {
    Skipped { path: path.to_string(), reason }
}

fn resolved_show(entries: Vec<Entry>) -> Scope {
    let mut scope = open_show("/tv/Breaking.Bad.2008.1080p", entries);
    assert_eq!(scope.request(), search("Breaking%20Bad%202008"));
    scope.respond(answer(vec![breaking_bad()]));
    assert_eq!(scope.request(), Request::Choose { context: "/tv/Breaking.Bad.2008.1080p".to_string() });
    scope.respond(Event::Chosen(Some(0)));
    assert_eq!(scope.primary(), &Some(breaking_bad()));
    scope
}

#[test]
fn series_is_searched_by_the_name_of_its_directory() {
    let scope = open_show("/tv/Breaking.Bad", vec![episode_file("/tv/Breaking.Bad/Other.Name.S01E01.mkv", 1)]);
    assert_eq!(scope.kind(), MediaKind::Show);
    assert_eq!(scope.request(), search("Breaking%20Bad"));
}

#[test]
fn directory_name_keeps_its_last_token() {
    let scope = open_show("/tv/Lost", Vec::new());
    assert_eq!(scope.request(), search("Lost"));
}

#[test]
fn episodes_are_filed_by_season() {
    let mut scope = resolved_show(vec![
        episode_file("/tv/Breaking.Bad.2008.1080p/bb.S01E01.mkv", 10),
        episode_file("/tv/Breaking.Bad.2008.1080p/bb.2x03.mkv", 20),
    ]);
    assert_eq!(
        scope.request(),
        Request::ReadHeader { path: "/tv/Breaking.Bad.2008.1080p/bb.2x03.mkv".to_string() }
    );
    scope.respond(Event::Header(clip()));
    scope.respond(Event::Header(clip()));
    assert!(scope.is_done());
    assert_eq!(
        scope.into_moves(),
        vec![
            Move {
                from: "/tv/Breaking.Bad.2008.1080p/bb.2x03.mkv".to_string(),
                to: "/lib/TV Shows/Breaking Bad (2008){tmdb-1396}/Season 02/Breaking Bad - S02E03.mkv"
                    .to_string(),
            },
            Move {
                from: "/tv/Breaking.Bad.2008.1080p/bb.S01E01.mkv".to_string(),
                to: "/lib/TV Shows/Breaking Bad (2008){tmdb-1396}/Season 01/Breaking Bad - S01E01.mkv"
                    .to_string(),
            },
        ]
    );
}

#[test]
fn file_without_episode_pattern_is_skipped() {
    let mut scope = resolved_show(vec![
        episode_file("/tv/Breaking.Bad.2008.1080p/extras.mkv", 10),
        episode_file("/tv/Breaking.Bad.2008.1080p/notes.srt", 5),
    ]);
    scope.respond(Event::Header(clip()));
    scope.respond(Event::Header(plain()));
    assert!(scope.is_done());
    assert!(scope.moves().is_empty());
    assert_eq!(
        scope.skipped(),
        &vec![
            gone("/tv/Breaking.Bad.2008.1080p/extras.mkv", SkipReason::NoEpisode),
            gone("/tv/Breaking.Bad.2008.1080p/notes.srt", SkipReason::NoEpisode),
        ]
    );
}

#[test]
fn episode_subtitle_is_filed_beside_the_episode() {
    let mut scope = resolved_show(vec![episode_file("/tv/Breaking.Bad.2008.1080p/bb.S01E02.srt", 10)]);
    scope.respond(Event::Header(plain()));
    assert_eq!(
        scope.request(),
        Request::Language { path: "/tv/Breaking.Bad.2008.1080p/bb.S01E02.srt".to_string() }
    );
    scope.respond(Event::Text(Some("EN".to_string())));
    assert_eq!(scope.request(), Request::Forced);
    scope.respond(Event::Confirmed(Some(true)));
    assert_eq!(
        scope.into_moves(),
        vec![Move {
            from: "/tv/Breaking.Bad.2008.1080p/bb.S01E02.srt".to_string(),
            to: "/lib/TV Shows/Breaking Bad (2008){tmdb-1396}/Season 01/Breaking Bad - S01E02.en.forced.srt"
                .to_string(),
        }]
    );
}

#[test]
fn episode_subtitle_prompts_can_be_declined() {
    let mut scope = resolved_show(vec![
        episode_file("/tv/Breaking.Bad.2008.1080p/bb.S01E02.srt", 10),
        episode_file("/tv/Breaking.Bad.2008.1080p/bb.S01E03.srt", 9),
        episode_file("/tv/Breaking.Bad.2008.1080p/bb.S01E04.srt", 8),
    ]);
    scope.respond(Event::Header(plain()));
    scope.respond(Event::Text(None));
    scope.respond(Event::Header(plain()));
    scope.respond(Event::Text(Some(String::new())));
    scope.respond(Event::Header(plain()));
    scope.respond(Event::Text(Some("en".to_string())));
    scope.respond(Event::Confirmed(None));
    assert!(scope.is_done());
    assert!(scope.moves().is_empty());
    assert_eq!(
        scope.skipped(),
        &vec![
            gone("/tv/Breaking.Bad.2008.1080p/bb.S01E02.srt", SkipReason::PromptCancelled),
            gone("/tv/Breaking.Bad.2008.1080p/bb.S01E03.srt", SkipReason::Discarded),
            gone("/tv/Breaking.Bad.2008.1080p/bb.S01E04.srt", SkipReason::PromptCancelled),
        ]
    );
}

#[test]
fn other_files_of_a_series_are_skipped() {
    let mut scope = resolved_show(vec![
        episode_file("/tv/Breaking.Bad.2008.1080p/bb.S01E02.nfo", 10),
        episode_file("/tv/Breaking.Bad.2008.1080p/S01E03", 9),
        episode_file("/tv/Breaking.Bad.2008.1080p/bb.S01E04.sample.mkv", 8),
        episode_file("/tv/Breaking.Bad.2008.1080p/bb.S01E05.mkv", 7),
    ]);
    scope.respond(Event::Header(plain()));
    scope.respond(Event::Header(plain()));
    assert_eq!(
        scope.request(),
        Request::ReadHeader { path: "/tv/Breaking.Bad.2008.1080p/bb.S01E05.mkv".to_string() }
    );
    scope.respond(Event::Header(None));
    assert!(scope.is_done());
    assert_eq!(
        scope.skipped(),
        &vec![
            gone("/tv/Breaking.Bad.2008.1080p/bb.S01E02.nfo", SkipReason::NotMedia),
            gone("/tv/Breaking.Bad.2008.1080p/S01E03", SkipReason::NoExtension),
            gone("/tv/Breaking.Bad.2008.1080p/bb.S01E04.sample.mkv", SkipReason::Sample),
            gone("/tv/Breaking.Bad.2008.1080p/bb.S01E05.mkv", SkipReason::HeaderUnreadable),
        ]
    );
}

#[test]
fn season_folders_of_a_known_series_are_walked() {
    let mut scope = resolved_show(vec![season("/tv/Breaking.Bad.2008.1080p/Season 1")]);
    assert_eq!(
        scope.request(),
        Request::Walk { folder: "/tv/Breaking.Bad.2008.1080p/Season 1".to_string() }
    );
    scope.respond(Event::Walked(vec![
        season("/tv/Breaking.Bad.2008.1080p/Season 1"),
        episode_file("/tv/Breaking.Bad.2008.1080p/Season 1/S01E07.mkv", 3),
    ]));
    scope.respond(Event::Header(clip()));
    assert!(scope.is_done());
    assert_eq!(
        scope.into_moves(),
        vec![Move {
            from: "/tv/Breaking.Bad.2008.1080p/Season 1/S01E07.mkv".to_string(),
            to: "/lib/TV Shows/Breaking Bad (2008){tmdb-1396}/Season 01/Breaking Bad - S01E07.mkv"
                .to_string(),
        }]
    );
}

#[test]
fn season_folder_is_not_searched() {
    let mut scope = open_show(
        "/tv/Season 1",
        vec![episode_file("/tv/Season 1/S01E01.mkv", 1), season("/tv/Season 1/Disc 1")],
    );
    assert_eq!(scope.primary(), &None);
    assert_eq!(
        scope.skipped(),
        &vec![gone("/tv/Season 1", SkipReason::Unresolved(ResolutionFailure::SeasonFolder))]
    );
    assert_eq!(scope.request(), Request::Descend { folder: "/tv/Season 1/Disc 1".to_string() });
    scope.respond(Event::Descended(Vec::new()));
    assert!(scope.is_done());
    assert!(scope.moves().is_empty());
}

#[test]
fn season_in_any_case_is_not_searched() {
    let scope = open_show("/tv/SEASON.02", Vec::new());
    assert!(scope.is_done());
    assert_eq!(
        scope.skipped(),
        &vec![gone("/tv/SEASON.02", SkipReason::Unresolved(ResolutionFailure::SeasonFolder))]
    );
}

#[test]
fn unresolved_series_leaves_its_files_and_opens_its_folders() {
    let mut scope = open_show(
        "/tv/Unknown.Thing",
        vec![episode_file("/tv/Unknown.Thing/S01E01.mkv", 1), season("/tv/Unknown.Thing/Inner")],
    );
    assert_eq!(scope.request(), search("Unknown%20Thing"));
    scope.respond(empty_answer());
    assert_eq!(scope.request(), search("Unknown"));
    scope.respond(empty_answer());
    assert_eq!(
        scope.skipped(),
        &vec![gone("/tv/Unknown.Thing", SkipReason::Unresolved(ResolutionFailure::NoMatch))]
    );
    assert_eq!(scope.request(), Request::Descend { folder: "/tv/Unknown.Thing/Inner".to_string() });
    let below = Move { from: "a".to_string(), to: "b".to_string() };
    scope.respond(Event::Descended(vec![below.clone()]));
    assert!(scope.is_done());
    assert_eq!(scope.into_moves(), vec![below]);
}

#[test]
fn cancelled_series_choice_opens_the_folders() {
    let mut scope = open_show(
        "/tv/Breaking.Bad",
        vec![episode_file("/tv/Breaking.Bad/S01E01.mkv", 1), season("/tv/Breaking.Bad/Inner")],
    );
    scope.respond(answer(vec![breaking_bad()]));
    scope.respond(Event::Chosen(None));
    assert_eq!(
        scope.skipped(),
        &vec![gone("/tv/Breaking.Bad", SkipReason::Unresolved(ResolutionFailure::SelectionCancelled))]
    );
    assert_eq!(scope.request(), Request::Descend { folder: "/tv/Breaking.Bad/Inner".to_string() });
}

#[test]
fn failed_series_search_is_not_retried() {
    let mut scope = open_show("/tv/Breaking.Bad", vec![episode_file("/tv/Breaking.Bad/S01E01.mkv", 1)]);
    scope.respond(Event::Searched(SearchOutcome::TransportFailure));
    assert!(scope.is_done());
    assert_eq!(
        scope.skipped(),
        &vec![gone("/tv/Breaking.Bad", SkipReason::Unresolved(ResolutionFailure::TransportFailure))]
    );
}

#[test]
fn directory_without_a_name_is_no_match() {
    let scope = open_show("", Vec::new());
    assert_eq!(scope.request(), search(""));
    let noise = open_show("/tv/1080p", vec![season("/tv/1080p/x")]);
    assert_eq!(
        noise.skipped(),
        &vec![gone("/tv/1080p", SkipReason::Unresolved(ResolutionFailure::NoMatch))]
    );
    assert_eq!(noise.request(), Request::Descend { folder: "/tv/1080p/x".to_string() });
}

#[test]
fn series_with_a_title_never_searches_again() {
    let mut scope = resolved_show(vec![
        episode_file("/tv/Breaking.Bad.2008.1080p/a.S01E01.mkv", 3),
        episode_file("/tv/Breaking.Bad.2008.1080p/b.S01E02.mkv", 2),
        season("/tv/Breaking.Bad.2008.1080p/Season 2"),
    ]);
    while !scope.is_done() {
        let request = scope.request();
        assert!(!matches!(request, Request::Search { .. }));
        assert!(!matches!(request, Request::Descend { .. }));
        match request {
            Request::ReadHeader { .. } => scope.respond(Event::Header(clip())),
            Request::Walk { .. } => scope.respond(Event::Walked(vec![episode_file(
                "/tv/Breaking.Bad.2008.1080p/Season 2/c.S02E01.mkv",
                1,
            )])),
            other => panic!("{:?}", other),
        }
        assert_eq!(scope.primary(), &Some(breaking_bad()));
    }
    assert_eq!(scope.moves().len(), 3);
}

#[test]
fn series_scope_can_be_opened_from_parted_entries() {
    let mut scope = plex_media_ingest::show::handle_show_files_and_folders(
        "/tv/Lost".to_string(),
        "Lost",
        vec![episode_file("/tv/Lost/a.S01E01.mkv", 1), episode_file("/tv/Lost/b.S01E02.mkv", 9)],
        Vec::new(),
        &settings(),
    );
    assert_eq!(scope.kind(), MediaKind::Show);
    assert_eq!(scope.request(), search("Lost"));
    scope.respond(answer(vec![breaking_bad()]));
    scope.respond(Event::Chosen(Some(0)));
    assert_eq!(scope.request(), Request::ReadHeader { path: "/tv/Lost/a.S01E01.mkv".to_string() });
}
