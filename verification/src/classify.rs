//! The rules by which a file is classified once its header was looked at.

use vstd::prelude::*;
use crate::candidate::MediaKind;
use crate::episode::EpisodeRef;
use crate::search::ResolutionFailure;
use crate::text::{eq_ignore_case, str_eq_ignore_case};

verus! {

/// Why a file, or a whole scope, gave no move.
#[derive(Clone, Copy, Debug, PartialEq, Eq, Structural)]
pub enum SkipReason {
    /// The path holds the word `sample`.
    Sample,
    /// The start of the file could not be read.
    HeaderUnreadable,
    /// No title was found for the name.
    Unresolved(ResolutionFailure),
    /// The file belongs to a title, and the scope has none.
    NoPrimary,
    /// A subtitle track came before the title it would belong to.
    SubtitleWithoutPrimary,
    /// The file is no video and its name has no extension.
    NoExtension,
    /// The file is neither a video nor a subtitle track.
    NotMedia,
    /// The path of a file of a series names no episode.
    NoEpisode,
    /// The person asked about the file declined to answer.
    PromptCancelled,
    /// The person asked chose to leave the file out.
    Ignored,
    /// The person asked gave no language for the subtitle track.
    Discarded,
}

/// What is to be done with a file.
#[derive(Clone, Copy, Debug, PartialEq, Eq, Structural)]
pub enum Verdict {
    /// It is the film: search for the title that its name stands for.
    Resolve,
    /// It is a further video beside the film: ask of what kind.
    Extra,
    /// It is a subtitle track, of the given episode in a series: ask for
    /// its language.
    Subtitle(Option<EpisodeRef>),
    /// It is the given episode of the series: file it.
    Episode(EpisodeRef),
    /// It is left out.
    Skip(SkipReason),
}

/// The extensions of subtitle tracks, in any case.
pub open spec fn is_subtitle_extension(extension: Seq<char>) -> bool {
    ||| eq_ignore_case(extension, "srt"@)
    ||| eq_ignore_case(extension, "ass"@)
    ||| eq_ignore_case(extension, "ssa"@)
    ||| eq_ignore_case(extension, "smi"@)
    ||| eq_ignore_case(extension, "pgs"@)
    ||| eq_ignore_case(extension, "vob"@)
}

/// The verdict on a file that is no video: a subtitle track is asked about
/// if there is a title and left out if there is none; anything else is
/// left out.
pub open spec fn verdict_of_other(
    has_title: bool,
    extension: Option<Seq<char>>,
    episode: Option<EpisodeRef>,
) -> Verdict {
    match extension {
        None => Verdict::Skip(SkipReason::NoExtension),
        Some(extension) => if is_subtitle_extension(extension) {
            if has_title {
                Verdict::Subtitle(episode)
            } else {
                Verdict::Skip(SkipReason::SubtitleWithoutPrimary)
            }
        } else {
            Verdict::Skip(SkipReason::NotMedia)
        },
    }
}

/// The verdict on a file. `video` says whether its header is that of a
/// video, and is `None` if the header could not be read; `episode` is the
/// episode that its path names, which only a series scope looks at.
///
/// In a film scope the first video is the film and every later one an
/// extra. In a series scope the path has to name an episode, and a video
/// is that episode.
pub open spec fn verdict_of(
    kind: MediaKind,
    has_title: bool,
    video: Option<bool>,
    extension: Option<Seq<char>>,
    episode: Option<EpisodeRef>,
) -> Verdict {
    match video {
        None => Verdict::Skip(SkipReason::HeaderUnreadable),
        Some(video) => match kind {
            MediaKind::Movie => if video {
                if has_title {
                    Verdict::Extra
                } else {
                    Verdict::Resolve
                }
            } else {
                verdict_of_other(has_title, extension, None)
            },
            MediaKind::Show => match episode {
                None => Verdict::Skip(SkipReason::NoEpisode),
                Some(found) => if video {
                    if has_title {
                        Verdict::Episode(found)
                    } else {
                        Verdict::Skip(SkipReason::NoPrimary)
                    }
                } else {
                    verdict_of_other(has_title, extension, episode)
                },
            },
        },
    }
}

/// A subtitle track that comes before there is a title is left out,
/// whatever else holds of it.
pub proof fn lemma_subtitle_needs_a_title(
    kind: MediaKind,
    extension: Seq<char>,
    episode: Option<EpisodeRef>,
)
    requires
        is_subtitle_extension(extension),
        kind == MediaKind::Show ==> episode is Some,
    ensures
        verdict_of(kind, false, Some(false), Some(extension), episode) == Verdict::Skip(
            SkipReason::SubtitleWithoutPrimary,
        ),
{
}

/// Without a title nothing is filed and nothing is asked about: the
/// verdict is a search for the title, or the file is left out.
pub proof fn lemma_no_title_no_filing(
    kind: MediaKind,
    video: Option<bool>,
    extension: Option<Seq<char>>,
    episode: Option<EpisodeRef>,
)
    ensures
        verdict_of(kind, false, video, extension, episode) is Resolve || verdict_of(
            kind,
            false,
            video,
            extension,
            episode,
        ) is Skip,
{
}

/// With a title no file starts a search.
pub proof fn lemma_title_ends_the_search(
    kind: MediaKind,
    video: Option<bool>,
    extension: Option<Seq<char>>,
    episode: Option<EpisodeRef>,
)
    ensures
        !(verdict_of(kind, true, video, extension, episode) is Resolve),
        kind == MediaKind::Movie && video == Some(true) ==> verdict_of(
            kind,
            true,
            video,
            extension,
            episode,
        ) is Extra,
{
}

/// Whether an extension is that of a subtitle track.
pub fn extension_is_subtitle(extension: &str) -> (r: bool)
    ensures
        r == is_subtitle_extension(extension@),
{
    str_eq_ignore_case(extension, "srt") || str_eq_ignore_case(extension, "ass")
        || str_eq_ignore_case(extension, "ssa") || str_eq_ignore_case(extension, "smi")
        || str_eq_ignore_case(extension, "pgs") || str_eq_ignore_case(extension, "vob")
}

fn verdict_on_other(has_title: bool, extension: &Option<String>, episode: Option<EpisodeRef>) -> (v:
    Verdict)
    ensures
        v == verdict_of_other(has_title, extension.deep_view(), episode),
{
    match extension {
        None => Verdict::Skip(SkipReason::NoExtension),
        Some(extension) => {
            if extension_is_subtitle(extension.as_str()) {
                if has_title {
                    Verdict::Subtitle(episode)
                } else {
                    Verdict::Skip(SkipReason::SubtitleWithoutPrimary)
                }
            } else {
                Verdict::Skip(SkipReason::NotMedia)
            }
        },
    }
}

/// Classifies a file: `has_title` says whether its scope has a title,
/// `video` whether its header is that of a video (`None` if the header
/// could not be read), `extension` is that of its name and `episode` the
/// episode that its path names.
pub fn verdict(
    kind: MediaKind,
    has_title: bool,
    video: Option<bool>,
    extension: &Option<String>,
    episode: Option<EpisodeRef>,
) -> (v: Verdict)
    ensures
        v == verdict_of(kind, has_title, video, extension.deep_view(), episode),
{
    match video {
        None => Verdict::Skip(SkipReason::HeaderUnreadable),
        Some(video) => match kind {
            MediaKind::Movie => {
                if video {
                    if has_title {
                        Verdict::Extra
                    } else {
                        Verdict::Resolve
                    }
                } else {
                    verdict_on_other(has_title, extension, None)
                }
            },
            MediaKind::Show => match episode {
                None => Verdict::Skip(SkipReason::NoEpisode),
                Some(found) => {
                    if video {
                        if has_title {
                            Verdict::Episode(found)
                        } else {
                            Verdict::Skip(SkipReason::NoPrimary)
                        }
                    } else {
                        verdict_on_other(has_title, extension, episode)
                    }
                },
            },
        },
    }
}

} // verus!
