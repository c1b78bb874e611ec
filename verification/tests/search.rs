use plex_media_ingest::candidate::{Candidate, MediaKind};
use plex_media_ingest::search::{
    bearer_header, begin_resolution, build_search_url, continue_resolution, is_season_folder,
    join_tokens, Resolution, ResolutionFailure, SearchOutcome, SearchResponse,
};

fn words(list: &[&str]) -> Vec<String> {
    list.iter().map(|w| w.to_string()).collect()
}

fn candidate(id: i32, title: &str) -> Candidate {
    Candidate {
        id,
        title: title.to_string(),
        original_language: Some("en".to_string()),
        release_date: Some("1999-03-31".to_string()),
        kind: MediaKind::Movie,
    }
}

fn nothing() -> SearchOutcome {
    SearchOutcome::Answer(SearchResponse { results: Vec::new(), total_results: 0 })
}

fn found(list: Vec<Candidate>) -> SearchOutcome {
    let total_results = list.len() as i32;
    SearchOutcome::Answer(SearchResponse { results: list, total_results })
}

#[test]
fn tokens_are_joined_with_single_spaces() {
    assert_eq!(join_tokens(&words(&["The", "Matrix", "1999"])), "The Matrix 1999");
    assert_eq!(join_tokens(&words(&["Alien"])), "Alien");
    assert_eq!(join_tokens(&words(&[])), "");
    assert_eq!(join_tokens(&words(&["a", "", "b"])), "a  b");
}

#[test]
fn film_search_address() {
    assert_eq!(
        build_search_url(MediaKind::Movie, "The Matrix"),
        "https://api.themoviedb.org/3/search/movie?query=The%20Matrix&include_adult=false&language=en-US&page=1"
    );
}

#[test]
fn series_search_address() {
    assert_eq!(
        build_search_url(MediaKind::Show, "Breaking Bad"),
        "https://api.themoviedb.org/3/search/tv?query=Breaking%20Bad&include_adult=false&language=en-US&page=1"
    );
}

#[test]
fn query_is_percent_encoded() {
    let url = build_search_url(MediaKind::Movie, "a&b=c/d?e é~_-.");
    assert_eq!(
        url,
        "https://api.themoviedb.org/3/search/movie?query=a%26b%3Dc%2Fd%3Fe%20%C3%A9~_-.&include_adult=false&language=en-US&page=1"
    );
}

#[test]
fn bearer_header_holds_the_key() {
    assert_eq!(bearer_header("abc123"), "Bearer abc123");
    assert_eq!(bearer_header(""), "Bearer ");
}

#[test]
fn season_folder_is_recognised_by_its_first_token() {
    assert!(is_season_folder(&words(&["Season", "1"])));
    assert!(is_season_folder(&words(&["season"])));
    assert!(is_season_folder(&words(&["SEASON", "02"])));
    assert!(!is_season_folder(&words(&["Seasons"])));
    assert!(!is_season_folder(&words(&["The", "Season"])));
    assert!(!is_season_folder(&words(&[])));
}

#[test]
fn resolution_starts_with_a_search_if_there_is_a_token() {
    assert_eq!(begin_resolution(words(&["a", "b"])), Resolution::Search(words(&["a", "b"])));
    assert_eq!(begin_resolution(words(&[])), Resolution::Failed(ResolutionFailure::NoMatch));
}

#[test]
fn answer_with_results_is_offered_as_it_came() {
    let list = vec![candidate(2, "Second"), candidate(1, "First")];
    assert_eq!(
        continue_resolution(words(&["a", "b"]), found(list.clone())),
        Resolution::Offer(list)
    );
}

#[test]
fn empty_answer_drops_the_last_token() {
    assert_eq!(
        continue_resolution(words(&["The", "Matrix", "xyz"]), nothing()),
        Resolution::Search(words(&["The", "Matrix"]))
    );
}

#[test]
fn empty_answer_on_the_last_token_is_no_match() {
    assert_eq!(
        continue_resolution(words(&["The"]), nothing()),
        Resolution::Failed(ResolutionFailure::NoMatch)
    );
    assert_eq!(
        continue_resolution(words(&[]), nothing()),
        Resolution::Failed(ResolutionFailure::NoMatch)
    );
}

#[test]
fn zero_count_asks_for_less_even_with_results() {
    let outcome = SearchOutcome::Answer(SearchResponse {
        results: vec![candidate(1, "First")],
        total_results: 0,
    });
    assert_eq!(continue_resolution(words(&["a", "b"]), outcome), Resolution::Search(words(&["a"])));
}

#[test]
fn empty_list_asks_for_less_even_with_a_count() {
    let outcome = SearchOutcome::Answer(SearchResponse { results: Vec::new(), total_results: 3 });
    assert_eq!(continue_resolution(words(&["a", "b"]), outcome), Resolution::Search(words(&["a"])));
}

#[test]
fn transport_failure_ends_the_resolution() {
    assert_eq!(
        continue_resolution(words(&["a", "b", "c"]), SearchOutcome::TransportFailure),
        Resolution::Failed(ResolutionFailure::TransportFailure)
    );
}

#[test]
fn token_drop_makes_at_most_as_many_calls_as_tokens() {
    for n in 0..6usize {
        let tokens: Vec<String> = (0..n).map(|i| format!("t{}", i)).collect();
        let mut calls = 0;
        let mut step = begin_resolution(tokens);
        loop {
            match step {
                Resolution::Search(tokens) => {
                    calls += 1;
                    step = continue_resolution(tokens, nothing());
                }
                Resolution::Failed(failure) => {
                    assert_eq!(failure, ResolutionFailure::NoMatch);
                    break;
                }
                Resolution::Offer(_) => unreachable!(),
            }
        }
        assert_eq!(calls, n);
        assert!(calls <= n + 1);
    }
}
