//! Season and episode numbers, read from the path of a file of a series.

use vstd::prelude::*;
use crate::decimal::{all_digits, decimal_value, parse_u32};

verus! {

/// The place of an episode within its series.
#[derive(Clone, Copy, Debug, PartialEq, Eq, Structural)]
pub struct EpisodeRef {
    pub season: u32,
    pub episode: u32,
}

/// What a regular expression of the `regex` crate, compiled to ignore case,
/// captures in a text: for the first match, the text of each of the named
/// groups asked for, in the order asked, with `None` for a group that took
/// no part in the match. There is no result when the text holds no match or
/// when the pattern is not a valid expression.
pub uninterp spec fn regex_captures(
    pattern: Seq<char>,
    text: Seq<char>,
    groups: Seq<Seq<char>>,
) -> Option<Seq<Option<Seq<char>>>>;

/// The pattern that finds the episode in a path: either `S`, digits, an
/// optional full stop, `E` and digits, or digits, `x` and digits.
pub open spec fn episode_pattern() -> Seq<char> {
    r"(?:S(?<season0>[0-9]+)\.?E(?<episode0>[0-9]+)|(?<season1>[0-9]+)x(?<episode1>[0-9]+))"@
}

/// The groups of the episode pattern: season and episode of the first form,
/// then season and episode of the second.
pub open spec fn episode_groups() -> Seq<Seq<char>> {
    seq!["season0"@, "episode0"@, "season1"@, "episode1"@]
}

/// The number that a captured run of digits denotes, if it is one and fits
/// in 32 bits.
pub open spec fn number_of(text: Seq<char>) -> Option<u32> {
    if text.len() > 0 && all_digits(text) && decimal_value(text) <= u32::MAX {
        Some(decimal_value(text) as u32)
    } else {
        None
    }
}

/// The first of two captures that is there, or the empty text.
pub open spec fn first_of(a: Option<Seq<char>>, b: Option<Seq<char>>) -> Seq<char> {
    match a {
        Some(text) => text,
        None => match b {
            Some(text) => text,
            None => Seq::empty(),
        },
    }
}

/// The episode that four captures describe: the first form of the pattern
/// wins over the second, and both numbers have to be readable.
pub open spec fn episode_of_groups(groups: Seq<Option<Seq<char>>>) -> Option<EpisodeRef> {
    if groups.len() != 4 {
        None
    } else {
        match (number_of(first_of(groups[0], groups[2])), number_of(first_of(groups[1], groups[3]))) {
            (Some(season), Some(episode)) => Some(EpisodeRef { season, episode }),
            _ => None,
        }
    }
}

/// The episode that a search of the pattern describes, if it found one.
pub open spec fn episode_of_captures(found: Option<Seq<Option<Seq<char>>>>) -> Option<EpisodeRef> {
    match found {
        Some(groups) => episode_of_groups(groups),
        None => None,
    }
}

/// The episode named in a path, if any.
pub open spec fn episode_in(path: Seq<char>) -> Option<EpisodeRef> {
    episode_of_captures(regex_captures(episode_pattern(), path, episode_groups()))
}

/// Compiles `pattern` with `regex::RegexBuilder`, case-insensitively, and
/// searches `text` with `Regex::captures`. The result is what the crate
/// captures for the given group names, as `regex_captures` names it; a
/// pattern that the crate rejects gives `None`, as a text without a match
/// does.
#[verifier::external_body]
fn find_groups(pattern: &str, text: &str, groups: &Vec<&'static str>) -> (found: Option<
    Vec<Option<String>>,
>)
    ensures
        found.deep_view() == regex_captures(pattern@, text@, groups.deep_view()),
{
    let compiled = regex::RegexBuilder::new(pattern).case_insensitive(true).build();
    let expression = match compiled {
        Ok(expression) => expression,
        Err(_) => return None,
    };
    let captures = expression.captures(text)?;
    Some(groups.iter().map(|g| captures.name(g).map(|m| m.as_str().to_string())).collect())
}

fn first_text<'a>(a: &'a Option<String>, b: &'a Option<String>) -> (text: &'a str)
    ensures
        text@ == first_of(a.deep_view(), b.deep_view()),
{
    match a {
        Some(text) => text.as_str(),
        None => match b {
            Some(text) => text.as_str(),
            None => {
                let empty = "";
                proof {
                    reveal_strlit("");
                }
                assert(empty@ =~= Seq::<char>::empty());
                empty
            },
        },
    }
}

fn number(text: &str) -> (n: Option<u32>)
    ensures
        n == number_of(text@),
{
    parse_u32(text)
}

/// Reads the episode out of the four captures of the episode pattern.
/// There is one exactly when there are four captures and the season and
/// the episode, each taken from the first form if it matched and from the
/// second otherwise, are runs of digits that fit in 32 bits.
pub fn episode_from_groups(groups: &Vec<Option<String>>) -> (episode: Option<EpisodeRef>)
    ensures
        episode == episode_of_groups(groups.deep_view()),
{
    if groups.len() != 4 {
        return None;
    }
    let season = number(first_text(&groups[0], &groups[2]));
    let episode = number(first_text(&groups[1], &groups[3]));
    match (season, episode) {
        (Some(season), Some(episode)) => Some(EpisodeRef { season, episode }),
        _ => None,
    }
}

/// Finds season and episode in the path of a file: `S01E02`, `s1.e2` and
/// `1x02` all name one, in any case. A path without such a pattern, or with
/// numbers too large to hold, names none.
pub fn extract_episode(path: &str) -> (episode: Option<EpisodeRef>)
    ensures
        episode == episode_in(path@),
{
    let groups: Vec<&'static str> = vec!["season0", "episode0", "season1", "episode1"];
    assert(groups.deep_view() =~= episode_groups());
    let pattern =
        r"(?:S(?<season0>[0-9]+)\.?E(?<episode0>[0-9]+)|(?<season1>[0-9]+)x(?<episode1>[0-9]+))";
    match find_groups(pattern, path, &groups) {
        Some(found) => episode_from_groups(&found),
        None => None,
    }
}

} // verus!
