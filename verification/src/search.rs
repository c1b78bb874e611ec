//! Finding the title that a name stands for: the queries put to the title
//! service, and how a query is narrowed when the service finds nothing.
//!
//! The service itself is not called from here. The functions of this module
//! say what to ask next and what an answer means.

use vstd::prelude::*;
use vstd::string::StringExecFns;
use vstd::utf8::encode_utf8;
use crate::candidate::{Candidate, CandidateView, MediaKind};
use crate::text::{copy_str, eq_ignore_case, str_eq_ignore_case};

verus! {

/// What the title service sent back for one query.
#[derive(Clone, Debug, PartialEq, Eq)]
pub struct SearchResponse {
    pub results: Vec<Candidate>,
    pub total_results: i32,
}

/// A `SearchResponse` as plain values.
pub struct SearchResponseView {
    pub results: Seq<CandidateView>,
    pub total_results: int,
}

impl View for SearchResponse {
    type V = SearchResponseView;

    open spec fn view(&self) -> SearchResponseView {
        SearchResponseView {
            results: self.results.deep_view(),
            total_results: self.total_results as int,
        }
    }
}

/// How one call of the title service ended.
#[derive(Clone, Debug, PartialEq, Eq)]
pub enum SearchOutcome {
    /// The service answered.
    Answer(SearchResponse),
    /// The call failed: no connection, no answer in time, or an answer that
    /// was not a result list.
    TransportFailure,
}

/// A `SearchOutcome` as plain values.
pub enum SearchOutcomeView {
    Answer(SearchResponseView),
    TransportFailure,
}

impl View for SearchOutcome {
    type V = SearchOutcomeView;

    open spec fn view(&self) -> SearchOutcomeView {
        match self {
            SearchOutcome::Answer(response) => SearchOutcomeView::Answer(response@),
            SearchOutcome::TransportFailure => SearchOutcomeView::TransportFailure,
        }
    }
}

/// Why a name could not be given a title.
#[derive(Clone, Copy, Debug, PartialEq, Eq, Structural)]
pub enum ResolutionFailure {
    /// Every query, down to the first token alone, found nothing.
    NoMatch,
    /// A call of the title service failed.
    TransportFailure,
    /// The person asked to choose among the candidates declined.
    SelectionCancelled,
    /// The name is that of a season folder, which names no series.
    SeasonFolder,
}

/// Where a resolution stands.
#[derive(Clone, Debug, PartialEq, Eq)]
pub enum Resolution {
    /// The service is to be asked with these tokens.
    Search(Vec<String>),
    /// The service found these candidates, to choose from.
    Offer(Vec<Candidate>),
    /// There will be no title.
    Failed(ResolutionFailure),
}

/// A `Resolution` as plain values.
pub enum ResolutionView {
    Search(Seq<Seq<char>>),
    Offer(Seq<CandidateView>),
    Failed(ResolutionFailure),
}

impl View for Resolution {
    type V = ResolutionView;

    open spec fn view(&self) -> ResolutionView {
        match self {
            Resolution::Search(tokens) => ResolutionView::Search(tokens.deep_view()),
            Resolution::Offer(candidates) => ResolutionView::Offer(candidates.deep_view()),
            Resolution::Failed(failure) => ResolutionView::Failed(*failure),
        }
    }
}

/// The tokens written one after the other with a space between each two.
pub open spec fn joined(tokens: Seq<Seq<char>>) -> Seq<char>
    decreases tokens.len(),
{
    if tokens.len() == 0 {
        Seq::empty()
    } else if tokens.len() == 1 {
        tokens[0]
    } else {
        joined(tokens.drop_last()) + " "@ + tokens.last()
    }
}

/// The bytes that stand for themselves in a query: letters, digits,
/// hyphen, full stop, underscore and tilde.
pub open spec fn is_unreserved(byte: u8) -> bool {
    ||| 0x30 <= byte <= 0x39
    ||| 0x41 <= byte <= 0x5a
    ||| 0x61 <= byte <= 0x7a
    ||| byte == 0x2d
    ||| byte == 0x2e
    ||| byte == 0x5f
    ||| byte == 0x7e
}

/// The hexadecimal digit of a value below sixteen, in upper case.
pub open spec fn hex_digit(value: int) -> char {
    if value < 10 {
        (0x30 + value) as char
    } else {
        (0x41 + value - 10) as char
    }
}

/// One byte as it stands in a query: itself if unreserved, else a percent
/// sign and its two hexadecimal digits.
pub open spec fn percent_encoded_byte(byte: u8) -> Seq<char> {
    if is_unreserved(byte) {
        seq![byte as char]
    } else {
        seq!['%', hex_digit(byte as int / 16), hex_digit(byte as int % 16)]
    }
}

/// A run of bytes as it stands in a query.
pub open spec fn percent_encoded(bytes: Seq<u8>) -> Seq<char>
    decreases bytes.len(),
{
    if bytes.len() == 0 {
        Seq::empty()
    } else {
        percent_encoded(bytes.drop_last()) + percent_encoded_byte(bytes.last())
    }
}

/// The address that searches the title service for `query`.
pub open spec fn search_url(kind: MediaKind, query: Seq<char>) -> Seq<char> {
    (match kind {
        MediaKind::Movie => "https://api.themoviedb.org/3/search/movie?query="@,
        MediaKind::Show => "https://api.themoviedb.org/3/search/tv?query="@,
    }) + percent_encoded(encode_utf8(query)) + "&include_adult=false&language=en-US&page=1"@
}

/// The value of the header that authorises a call with the given key.
pub open spec fn bearer(key: Seq<char>) -> Seq<char> {
    "Bearer "@ + key
}

/// The service found nothing and a shorter query is worth a try: the list
/// of results is empty or their count is zero.
pub open spec fn asks_for_less(response: SearchResponseView) -> bool {
    response.results.len() == 0 || response.total_results == 0
}

/// The tokens begin with the word `season`, in any case: the name of a
/// season folder.
pub open spec fn names_a_season(tokens: Seq<Seq<char>>) -> bool {
    tokens.len() > 0 && eq_ignore_case(tokens[0], "season"@)
}

/// How a resolution starts from the tokens of a name: with a search if
/// there is a token, as a failure if there is none.
pub open spec fn first_step(tokens: Seq<Seq<char>>) -> ResolutionView {
    if tokens.len() == 0 {
        ResolutionView::Failed(ResolutionFailure::NoMatch)
    } else {
        ResolutionView::Search(tokens)
    }
}

/// How a resolution goes on after the service was asked with `tokens`. A
/// failed call ends it. An answer without results drops the last token and
/// asks again, or ends it when no token is left. Any other answer offers
/// its results.
pub open spec fn next_step(tokens: Seq<Seq<char>>, outcome: SearchOutcomeView) -> ResolutionView {
    match outcome {
        SearchOutcomeView::TransportFailure => ResolutionView::Failed(
            ResolutionFailure::TransportFailure,
        ),
        SearchOutcomeView::Answer(response) => if asks_for_less(response) {
            if tokens.len() == 0 {
                ResolutionView::Failed(ResolutionFailure::NoMatch)
            } else {
                first_step(tokens.drop_last())
            }
        } else {
            ResolutionView::Offer(response.results)
        },
    }
}

/// The number of calls of the service that a resolution makes, starting
/// from `tokens`, when the service answers with `outcomes` in turn.
pub open spec fn searches(tokens: Seq<Seq<char>>, outcomes: Seq<SearchOutcomeView>) -> nat
    decreases tokens.len(),
{
    if tokens.len() == 0 {
        0
    } else if outcomes.len() == 0 {
        1
    } else if next_step(tokens, outcomes[0]) is Search {
        1 + searches(tokens.drop_last(), outcomes.drop_first())
    } else {
        1
    }
}

/// A resolution that starts from `n` tokens calls the service at most `n`
/// times, whatever the service answers: every answer without results costs
/// a token.
pub proof fn lemma_searches_bounded(tokens: Seq<Seq<char>>, outcomes: Seq<SearchOutcomeView>)
    ensures
        searches(tokens, outcomes) <= tokens.len(),
        searches(tokens, outcomes) <= tokens.len() + 1,
    decreases tokens.len(),
{
    if tokens.len() > 0 && outcomes.len() > 0 && next_step(tokens, outcomes[0]) is Search {
        lemma_searches_bounded(tokens.drop_last(), outcomes.drop_first());
    }
}

/// A search that follows an answer is made with one token less.
pub proof fn lemma_next_search_is_shorter(tokens: Seq<Seq<char>>, outcome: SearchOutcomeView)
    requires
        next_step(tokens, outcome) is Search,
    ensures
        next_step(tokens, outcome) == ResolutionView::Search(tokens.drop_last()),
        tokens.drop_last().len() + 1 == tokens.len(),
        tokens.len() >= 2,
{
}

/// `urlencoding::encode`: every byte of the text, taken in UTF-8, stands
/// for itself if it is an ASCII letter or digit or one of `-`, `.`, `_`
/// and `~`, and is written as `%` and two upper-case hexadecimal digits
/// otherwise.
#[verifier::external_body]
fn url_encode(text: &str) -> (encoded: String)
    ensures
        encoded@ == percent_encoded(encode_utf8(text@)),
{
    urlencoding::encode(text).into_owned()
}

/// Writes the tokens one after the other with a space between each two.
pub fn join_tokens(tokens: &Vec<String>) -> (query: String)
    ensures
        query@ == joined(tokens.deep_view()),
{
    let mut query = String::new();
    let mut i: usize = 0;
    while i < tokens.len()
        invariant
            i <= tokens.len(),
            query@ == joined(tokens.deep_view().take(i as int)),
        decreases tokens.len() - i,
    {
        proof {
            let seen = tokens.deep_view().take(i + 1);
            assert(seen.drop_last() =~= tokens.deep_view().take(i as int));
            assert(seen.last() == tokens[i as int]@);
        }
        if i > 0 {
            query.append(" ");
        } else {
            assert(query@ + tokens[i as int]@ =~= tokens[i as int]@);
        }
        query.append(tokens[i].as_str());
        i = i + 1;
    }
    assert(tokens.deep_view().take(tokens.len() as int) =~= tokens.deep_view());
    query
}

/// The address that searches the title service for `query`.
pub fn build_search_url(kind: MediaKind, query: &str) -> (url: String)
    ensures
        url@ == search_url(kind, query@),
{
    let encoded = url_encode(query);
    let mut url = match kind {
        MediaKind::Movie => copy_str("https://api.themoviedb.org/3/search/movie?query="),
        MediaKind::Show => copy_str("https://api.themoviedb.org/3/search/tv?query="),
    };
    url.append(encoded.as_str());
    url.append("&include_adult=false&language=en-US&page=1");
    url
}

/// The value of the header that authorises a call with the given key.
pub fn bearer_header(key: &str) -> (value: String)
    ensures
        value@ == bearer(key@),
{
    let mut value = copy_str("Bearer ");
    value.append(key);
    value
}

/// Whether the tokens are those of the name of a season folder.
pub fn is_season_folder(tokens: &Vec<String>) -> (r: bool)
    ensures
        r == names_a_season(tokens.deep_view()),
{
    tokens.len() > 0 && str_eq_ignore_case(tokens[0].as_str(), "season")
}

/// Starts a resolution from the tokens of a name.
pub fn begin_resolution(tokens: Vec<String>) -> (step: Resolution)
    ensures
        step@ == first_step(tokens.deep_view()),
{
    if tokens.len() == 0 {
        Resolution::Failed(ResolutionFailure::NoMatch)
    } else {
        Resolution::Search(tokens)
    }
}

/// Takes the answer to the search made with `tokens` and says how the
/// resolution goes on.
pub fn continue_resolution(tokens: Vec<String>, outcome: SearchOutcome) -> (step: Resolution)
    ensures
        step@ == next_step(tokens.deep_view(), outcome@),
{
    match outcome {
        SearchOutcome::TransportFailure => Resolution::Failed(ResolutionFailure::TransportFailure),
        SearchOutcome::Answer(response) => {
            if response.results.len() == 0 || response.total_results == 0 {
                let mut fewer = tokens;
                if fewer.len() == 0 {
                    return Resolution::Failed(ResolutionFailure::NoMatch);
                }
                let ghost before = fewer.deep_view();
                fewer.pop();
                assert(fewer.deep_view() =~= before.drop_last());
                begin_resolution(fewer)
            } else {
                Resolution::Offer(response.results)
            }
        },
    }
}

} // verus!
