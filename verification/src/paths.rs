//! Where a classified file belongs in the library.
//!
//! The library keeps films under `Movies/` and series under `TV Shows/`,
//! each title in a folder named after it, its year and its identifier.

use vstd::prelude::*;
use vstd::string::StringExecFns;
use crate::candidate::{Candidate, CandidateView};
use crate::decimal::{format_i32, format_two_digits, signed_decimal, two_digit_decimal};
use crate::episode::EpisodeRef;
use crate::text::{chars_of, copy_str, lowercase, string_of, to_ascii_lowercase};

verus! {

/// What a further video file beside the main title is.
#[derive(Clone, Copy, Debug, PartialEq, Eq, Structural)]
pub enum ExtraKind {
    Ignore,
    Edition,
    BehindTheScenes,
    DeletedScenes,
    Featurettes,
    Interviews,
    Scenes,
    Shorts,
    Trailers,
    Other,
}

/// The name of a kind of extra, which is also the name of its folder.
pub open spec fn extra_kind_name(kind: ExtraKind) -> Seq<char> {
    match kind {
        ExtraKind::Ignore => "Ignore"@,
        ExtraKind::Edition => "Edition"@,
        ExtraKind::BehindTheScenes => "Behind The Scenes"@,
        ExtraKind::DeletedScenes => "Deleted Scenes"@,
        ExtraKind::Featurettes => "Featurettes"@,
        ExtraKind::Interviews => "Interviews"@,
        ExtraKind::Scenes => "Scenes"@,
        ExtraKind::Shorts => "Shorts"@,
        ExtraKind::Trailers => "Trailers"@,
        ExtraKind::Other => "Other"@,
    }
}

/// The kinds of extra in the order in which they are offered.
pub open spec fn extra_kinds() -> Seq<ExtraKind> {
    seq![
        ExtraKind::Ignore,
        ExtraKind::Edition,
        ExtraKind::BehindTheScenes,
        ExtraKind::DeletedScenes,
        ExtraKind::Featurettes,
        ExtraKind::Interviews,
        ExtraKind::Scenes,
        ExtraKind::Shorts,
        ExtraKind::Trailers,
        ExtraKind::Other,
    ]
}

impl ExtraKind {
    /// The name of this kind, which is also the name of its folder.
    pub fn name(&self) -> (name: &'static str)
        ensures
            name@ == extra_kind_name(*self),
    {
        match self {
            ExtraKind::Ignore => "Ignore",
            ExtraKind::Edition => "Edition",
            ExtraKind::BehindTheScenes => "Behind The Scenes",
            ExtraKind::DeletedScenes => "Deleted Scenes",
            ExtraKind::Featurettes => "Featurettes",
            ExtraKind::Interviews => "Interviews",
            ExtraKind::Scenes => "Scenes",
            ExtraKind::Shorts => "Shorts",
            ExtraKind::Trailers => "Trailers",
            ExtraKind::Other => "Other",
        }
    }

    /// Every kind, in the order in which they are offered.
    pub fn all() -> (kinds: Vec<ExtraKind>)
        ensures
            kinds@ == extra_kinds(),
    {
        let kinds = vec![
            ExtraKind::Ignore,
            ExtraKind::Edition,
            ExtraKind::BehindTheScenes,
            ExtraKind::DeletedScenes,
            ExtraKind::Featurettes,
            ExtraKind::Interviews,
            ExtraKind::Scenes,
            ExtraKind::Shorts,
            ExtraKind::Trailers,
            ExtraKind::Other,
        ];
        assert(kinds@ =~= extra_kinds());
        kinds
    }
}

/// The file name that `sanitise_file_name::sanitise` makes of a title with
/// its default options: a name that file systems accept.
pub uninterp spec fn sanitised_name(title: Seq<char>) -> Seq<char>;

/// Calls `sanitise_file_name::sanitise`. The result is the name that the
/// crate makes of the title, which depends on the title alone.
#[verifier::external_body]
fn sanitise(title: &str) -> (clean: String)
    ensures
        clean@ == sanitised_name(title@),
{
    sanitise_file_name::sanitise(title)
}

/// The part of a date before its first hyphen: the year of a date written
/// `year-month-day`, the whole text if it has no hyphen.
pub open spec fn year_of(date: Seq<char>) -> Seq<char>
    decreases date.len(),
{
    if date.len() == 0 || date[0] == '-' {
        Seq::empty()
    } else {
        seq![date[0]] + year_of(date.drop_first())
    }
}

/// The year of a date holds no hyphen and is the start of the date, up to
/// its first hyphen or its end.
pub proof fn lemma_year_of(date: Seq<char>)
    ensures
        year_of(date).len() <= date.len(),
        year_of(date) == date.take(year_of(date).len() as int),
        forall|i: int| 0 <= i < year_of(date).len() ==> year_of(date)[i] != '-',
        year_of(date).len() < date.len() ==> date[year_of(date).len() as int] == '-',
    decreases date.len(),
{
    if date.len() == 0 || date[0] == '-' {
        assert(date.take(0) =~= Seq::<char>::empty());
    } else {
        let rest = date.drop_first();
        lemma_year_of(rest);
        let n = year_of(rest).len() as int;
        assert(year_of(date) =~= date.take(n + 1)) by {
            assert(rest.take(n) =~= date.subrange(1, n + 1));
        }
    }
}

/// What names a title in the library: its cleaned title, the year of its
/// release if it has a date, and its identifier.
#[derive(Clone, Debug, PartialEq, Eq)]
pub struct Naming {
    pub title: String,
    pub year: Option<String>,
    pub id: i32,
}

/// A `Naming` as plain values.
pub struct NamingView {
    pub title: Seq<char>,
    pub year: Option<Seq<char>>,
    pub id: int,
}

impl View for Naming {
    type V = NamingView;

    open spec fn view(&self) -> NamingView {
        NamingView { title: self.title@, year: self.year.deep_view(), id: self.id as int }
    }
}

/// The naming of a candidate: the title cleaned for use as a file name,
/// and the year taken from the date.
pub open spec fn naming_of(c: CandidateView) -> NamingView {
    NamingView {
        title: sanitised_name(c.title),
        year: match c.release_date {
            Some(date) => Some(year_of(date)),
            None => None,
        },
        id: c.id,
    }
}

/// How a file relates to the title of its scope.
#[derive(Clone, Debug, PartialEq, Eq)]
pub enum Placement {
    /// The film itself.
    Feature,
    /// Another cut of the film, with the label of the cut.
    Edition { label: String },
    /// Bonus material, filed under its kind with a description as name.
    Extra { kind: ExtraKind, description: String },
    /// A subtitle track of the film.
    Subtitle { language: String, forced: bool },
    /// An episode of the series.
    Episode { episode: EpisodeRef },
    /// A subtitle track of an episode.
    EpisodeSubtitle { episode: EpisodeRef, language: String, forced: bool },
}

/// A `Placement` as plain values.
pub enum PlacementView {
    Feature,
    Edition { label: Seq<char> },
    Extra { kind: ExtraKind, description: Seq<char> },
    Subtitle { language: Seq<char>, forced: bool },
    Episode { episode: EpisodeRef },
    EpisodeSubtitle { episode: EpisodeRef, language: Seq<char>, forced: bool },
}

impl View for Placement {
    type V = PlacementView;

    open spec fn view(&self) -> PlacementView {
        match self {
            Placement::Feature => PlacementView::Feature,
            Placement::Edition { label } => PlacementView::Edition { label: label@ },
            Placement::Extra { kind, description } => PlacementView::Extra {
                kind: *kind,
                description: description@,
            },
            Placement::Subtitle { language, forced } => PlacementView::Subtitle {
                language: language@,
                forced: *forced,
            },
            Placement::Episode { episode } => PlacementView::Episode { episode: *episode },
            Placement::EpisodeSubtitle { episode, language, forced } => {
                PlacementView::EpisodeSubtitle {
                    episode: *episode,
                    language: language@,
                    forced: *forced,
                }
            },
        }
    }
}

/// The year of a title in parentheses; nothing for a title without a
/// date.
pub open spec fn year_segment(year: Option<Seq<char>>) -> Seq<char> {
    match year {
        Some(y) => "("@ + y + ")"@,
        None => Seq::empty(),
    }
}

/// The identifier of a title in braces.
pub open spec fn id_tag(id: int) -> Seq<char> {
    "{tmdb-"@ + signed_decimal(id) + "}"@
}

/// The name of the folder of a title, and of its main file without the
/// extension: the title, a space, the year if there is one, and the
/// identifier.
pub open spec fn title_stem(n: NamingView) -> Seq<char> {
    n.title + " "@ + year_segment(n.year) + id_tag(n.id)
}

/// The name of a subtitle file of a film, up to the language: the title,
/// the year if there is one, and the identifier, with nothing between them.
pub open spec fn subtitle_stem(n: NamingView) -> Seq<char> {
    n.title + year_segment(n.year) + id_tag(n.id)
}

/// The end of the name of a subtitle file: language in lower case, the
/// mark of a forced track if it is one, and the extension.
pub open spec fn subtitle_suffix(language: Seq<char>, forced: bool, extension: Seq<char>) -> Seq<
    char,
> {
    "."@ + lowercase(language) + (if forced {
        ".forced"@
    } else {
        Seq::empty()
    }) + "."@ + extension
}

/// The folder of a season of a series.
pub open spec fn season_folder(n: NamingView, season: u32) -> Seq<char> {
    "TV Shows/"@ + title_stem(n) + "/Season "@ + two_digit_decimal(season as nat)
}

/// The name of an episode file without what follows the episode number.
pub open spec fn episode_stem(n: NamingView, episode: EpisodeRef) -> Seq<char> {
    n.title + " - S"@ + two_digit_decimal(episode.season as nat) + "E"@ + two_digit_decimal(
        episode.episode as nat,
    )
}

/// The path of a file below the root of the library.
pub open spec fn relative_path(n: NamingView, p: PlacementView, extension: Seq<char>) -> Seq<char> {
    match p {
        PlacementView::Feature => "Movies/"@ + title_stem(n) + "/"@ + title_stem(n) + "."@
            + extension,
        PlacementView::Edition { label } => "Movies/"@ + title_stem(n) + "/"@ + title_stem(n)
            + "{edition-"@ + label + "}"@ + "."@ + extension,
        PlacementView::Extra { kind, description } => "Movies/"@ + title_stem(n) + "/"@
            + extra_kind_name(kind) + "/"@ + description + "."@ + extension,
        PlacementView::Subtitle { language, forced } => "Movies/"@ + title_stem(n) + "/"@
            + subtitle_stem(n) + subtitle_suffix(language, forced, extension),
        PlacementView::Episode { episode } => season_folder(n, episode.season) + "/"@
            + episode_stem(n, episode) + "."@ + extension,
        PlacementView::EpisodeSubtitle { episode, language, forced } => season_folder(
            n,
            episode.season,
        ) + "/"@ + episode_stem(n, episode) + subtitle_suffix(language, forced, extension),
    }
}

/// A path below the root of the library, joined to the root: the path
/// alone under an empty root, else root and path with exactly one slash
/// between them where the root does not already end in one.
pub open spec fn in_library(root: Seq<char>, relative: Seq<char>) -> Seq<char> {
    if root.len() == 0 {
        relative
    } else if root.last() == '/' {
        root + relative
    } else {
        root + "/"@ + relative
    }
}

/// Where a file belongs: a function of the root of the library, the naming
/// of the title, the place of the file beside the title and its extension.
pub open spec fn destination_of(
    root: Seq<char>,
    n: NamingView,
    p: PlacementView,
    extension: Seq<char>,
) -> Seq<char> {
    in_library(root, relative_path(n, p, extension))
}

/// Equal inputs have equal destinations: the destination depends on
/// nothing but the root, the naming, the placement and the extension.
pub proof fn lemma_destination_is_a_function(
    root_a: Seq<char>,
    n_a: NamingView,
    p_a: PlacementView,
    extension_a: Seq<char>,
    root_b: Seq<char>,
    n_b: NamingView,
    p_b: PlacementView,
    extension_b: Seq<char>,
)
    requires
        root_a == root_b,
        n_a == n_b,
        p_a == p_b,
        extension_a == extension_b,
    ensures
        destination_of(root_a, n_a, p_a, extension_a) == destination_of(
            root_b,
            n_b,
            p_b,
            extension_b,
        ),
{
}

/// The year of a date: what stands before its first hyphen.
pub fn year_from_date(date: &str) -> (year: String)
    ensures
        year@ == year_of(date@),
{
    let chars = chars_of(date);
    let mut year: Vec<char> = Vec::new();
    let mut i: usize = 0;
    proof {
        lemma_year_of(date@);
    }
    while i < chars.len() && chars[i] != '-'
        invariant
            i <= chars.len(),
            chars@ == date@,
            year@ == date@.take(i as int),
            forall|j: int| 0 <= j < i ==> date@[j] != '-',
            year_of(date@).len() <= date@.len(),
            year_of(date@) == date@.take(year_of(date@).len() as int),
            forall|j: int| 0 <= j < year_of(date@).len() ==> year_of(date@)[j] != '-',
            year_of(date@).len() < date@.len() ==> date@[year_of(date@).len() as int] == '-',
        decreases chars.len() - i,
    {
        year.push(chars[i]);
        i = i + 1;
    }
    proof {
        let n = year_of(date@).len() as int;
        if n < i {
            assert(date@[n] == '-');
        }
        if i < n {
            assert(year_of(date@)[i as int] == date@[i as int]);
        }
    }
    string_of(&year)
}

impl Naming {
    /// The naming of a candidate: its title cleaned for use as a file name,
    /// the year of its date and its identifier.
    pub fn of(candidate: &Candidate) -> (naming: Naming)
        ensures
            naming@ == naming_of(candidate@),
    {
        Naming {
            title: sanitise(candidate.title.as_str()),
            year: match &candidate.release_date {
                Some(date) => Some(year_from_date(date.as_str())),
                None => None,
            },
            id: candidate.id,
        }
    }
}

fn year_segment_text(year: &Option<String>) -> (text: String)
    ensures
        text@ == year_segment(year.deep_view()),
{
    match year {
        Some(y) => {
            let mut text = copy_str("(");
            text.append(y.as_str());
            text.append(")");
            text
        },
        None => String::new(),
    }
}

fn id_tag_text(id: i32) -> (text: String)
    ensures
        text@ == id_tag(id as int),
{
    let digits = format_i32(id);
    let mut text = copy_str("{tmdb-");
    text.append(digits.as_str());
    text.append("}");
    text
}

fn title_stem_text(naming: &Naming) -> (text: String)
    ensures
        text@ == title_stem(naming@),
{
    let year = year_segment_text(&naming.year);
    let tag = id_tag_text(naming.id);
    let mut text = copy_str(naming.title.as_str());
    text.append(" ");
    text.append(year.as_str());
    text.append(tag.as_str());
    text
}

fn subtitle_stem_text(naming: &Naming) -> (text: String)
    ensures
        text@ == subtitle_stem(naming@),
{
    let year = year_segment_text(&naming.year);
    let tag = id_tag_text(naming.id);
    let mut text = copy_str(naming.title.as_str());
    text.append(year.as_str());
    text.append(tag.as_str());
    text
}

fn subtitle_suffix_text(language: &str, forced: bool, extension: &str) -> (text: String)
    ensures
        text@ == subtitle_suffix(language@, forced, extension@),
{
    let lowered = to_ascii_lowercase(language);
    let mut text = copy_str(".");
    text.append(lowered.as_str());
    if forced {
        text.append(".forced");
    } else {
        assert(text@ =~= "."@ + lowercase(language@) + Seq::<char>::empty());
    }
    text.append(".");
    text.append(extension);
    text
}

fn season_folder_text(naming: &Naming, season: u32) -> (text: String)
    ensures
        text@ == season_folder(naming@, season),
{
    let stem = title_stem_text(naming);
    let number = format_two_digits(season);
    let mut text = copy_str("TV Shows/");
    text.append(stem.as_str());
    text.append("/Season ");
    text.append(number.as_str());
    text
}

fn episode_stem_text(naming: &Naming, episode: EpisodeRef) -> (text: String)
    ensures
        text@ == episode_stem(naming@, episode),
{
    let season = format_two_digits(episode.season);
    let number = format_two_digits(episode.episode);
    let mut text = copy_str(naming.title.as_str());
    text.append(" - S");
    text.append(season.as_str());
    text.append("E");
    text.append(number.as_str());
    text
}

fn film_folder_text(naming: &Naming) -> (path: String)
    ensures
        path@ == "Movies/"@ + title_stem(naming@) + "/"@,
{
    let stem = title_stem_text(naming);
    let mut path = copy_str("Movies/");
    path.append(stem.as_str());
    path.append("/");
    path
}

/// Builds the path of a file below the root of the library.
pub fn relative_destination(naming: &Naming, placement: &Placement, extension: &str) -> (path:
    String)
    ensures
        path@ == relative_path(naming@, placement@, extension@),
{
    match placement {
        Placement::Feature => {
            let stem = title_stem_text(naming);
            let mut path = film_folder_text(naming);
            path.append(stem.as_str());
            path.append(".");
            path.append(extension);
            path
        },
        Placement::Edition { label } => {
            let stem = title_stem_text(naming);
            let mut path = film_folder_text(naming);
            path.append(stem.as_str());
            path.append("{edition-");
            path.append(label.as_str());
            path.append("}");
            path.append(".");
            path.append(extension);
            path
        },
        Placement::Extra { kind, description } => {
            let mut path = film_folder_text(naming);
            path.append(kind.name());
            path.append("/");
            path.append(description.as_str());
            path.append(".");
            path.append(extension);
            path
        },
        Placement::Subtitle { language, forced } => {
            let stem = subtitle_stem_text(naming);
            let suffix = subtitle_suffix_text(language.as_str(), *forced, extension);
            let mut path = film_folder_text(naming);
            path.append(stem.as_str());
            path.append(suffix.as_str());
            path
        },
        Placement::Episode { episode } => {
            let stem = episode_stem_text(naming, *episode);
            let mut path = season_folder_text(naming, episode.season);
            path.append("/");
            path.append(stem.as_str());
            path.append(".");
            path.append(extension);
            path
        },
        Placement::EpisodeSubtitle { episode, language, forced } => {
            let stem = episode_stem_text(naming, *episode);
            let suffix = subtitle_suffix_text(language.as_str(), *forced, extension);
            let mut path = season_folder_text(naming, episode.season);
            path.append("/");
            path.append(stem.as_str());
            path.append(suffix.as_str());
            path
        },
    }
}

/// Joins a path below the root of the library to the root.
pub fn join_root(root: &str, relative: String) -> (path: String)
    ensures
        path@ == in_library(root@, relative@),
{
    let root_chars = chars_of(root);
    if root_chars.len() == 0 {
        return relative;
    }
    let mut path = copy_str(root);
    if root_chars[root_chars.len() - 1] != '/' {
        path.append("/");
    }
    path.append(relative.as_str());
    path
}

/// Builds the destination of a file from the root of the library, the
/// naming of its title, its placement and its extension.
pub fn destination(root: &str, naming: &Naming, placement: &Placement, extension: &str) -> (path:
    String)
    ensures
        path@ == destination_of(root@, naming@, placement@, extension@),
{
    join_root(root, relative_destination(naming, placement, extension))
}

} // verus!
