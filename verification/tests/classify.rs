use plex_media_ingest::candidate::MediaKind;
use plex_media_ingest::classify::{extension_is_subtitle, verdict, SkipReason, Verdict};
use plex_media_ingest::episode::EpisodeRef;

fn ext(text: &str) -> Option<String> {
    Some(text.to_string())
}

const FIRST: EpisodeRef = EpisodeRef { season: 1, episode: 1 };

#[test]
fn subtitle_extensions_in_any_case() {
    for extension in ["srt", "ass", "ssa", "smi", "pgs", "vob", "SRT", "Ssa", "sMi", "PGS"] {
        assert!(extension_is_subtitle(extension), "{}", extension);
    }
    for extension in ["", "sub", "idx", "txt", "srt ", "mkv", "srtx", "as"] {
        assert!(!extension_is_subtitle(extension), "{}", extension);
    }
}

#[test]
fn unreadable_header_skips_the_file() {
    for kind in [MediaKind::Movie, MediaKind::Show] {
        for has_title in [false, true] {
            assert_eq!(
                verdict(kind, has_title, None, &ext("mkv"), Some(FIRST)),
                Verdict::Skip(SkipReason::HeaderUnreadable)
            );
        }
    }
}

#[test]
fn first_video_of_a_film_scope_is_resolved() {
    assert_eq!(verdict(MediaKind::Movie, false, Some(true), &ext("mkv"), None), Verdict::Resolve);
    assert_eq!(verdict(MediaKind::Movie, false, Some(true), &None, None), Verdict::Resolve);
}

#[test]
fn later_video_of_a_film_scope_is_an_extra() {
    assert_eq!(verdict(MediaKind::Movie, true, Some(true), &ext("mkv"), None), Verdict::Extra);
    assert_eq!(verdict(MediaKind::Movie, true, Some(true), &ext("srt"), Some(FIRST)), Verdict::Extra);
}

#[test]
fn subtitle_needs_a_title() {
    assert_eq!(
        verdict(MediaKind::Movie, false, Some(false), &ext("srt"), None),
        Verdict::Skip(SkipReason::SubtitleWithoutPrimary)
    );
    assert_eq!(
        verdict(MediaKind::Show, false, Some(false), &ext("ass"), Some(FIRST)),
        Verdict::Skip(SkipReason::SubtitleWithoutPrimary)
    );
    assert_eq!(
        verdict(MediaKind::Movie, true, Some(false), &ext("srt"), None),
        Verdict::Subtitle(None)
    );
    assert_eq!(
        verdict(MediaKind::Show, true, Some(false), &ext("SRT"), Some(FIRST)),
        Verdict::Subtitle(Some(FIRST))
    );
}

#[test]
fn film_scope_does_not_look_at_the_episode() {
    assert_eq!(
        verdict(MediaKind::Movie, true, Some(false), &ext("srt"), Some(FIRST)),
        Verdict::Subtitle(None)
    );
}

#[test]
fn files_that_are_no_media_are_skipped() {
    for has_title in [false, true] {
        assert_eq!(
            verdict(MediaKind::Movie, has_title, Some(false), &ext("txt"), None),
            Verdict::Skip(SkipReason::NotMedia)
        );
        assert_eq!(
            verdict(MediaKind::Movie, has_title, Some(false), &None, None),
            Verdict::Skip(SkipReason::NoExtension)
        );
        assert_eq!(
            verdict(MediaKind::Show, has_title, Some(false), &ext("nfo"), Some(FIRST)),
            Verdict::Skip(SkipReason::NotMedia)
        );
        assert_eq!(
            verdict(MediaKind::Show, has_title, Some(false), &None, Some(FIRST)),
            Verdict::Skip(SkipReason::NoExtension)
        );
    }
}

#[test]
fn series_file_needs_an_episode() {
    for video in [false, true] {
        for has_title in [false, true] {
            assert_eq!(
                verdict(MediaKind::Show, has_title, Some(video), &ext("srt"), None),
                Verdict::Skip(SkipReason::NoEpisode)
            );
        }
    }
}

#[test]
fn series_video_is_its_episode() {
    let episode = EpisodeRef { season: 2, episode: 7 };
    assert_eq!(
        verdict(MediaKind::Show, true, Some(true), &ext("mkv"), Some(episode)),
        Verdict::Episode(episode)
    );
    assert_eq!(
        verdict(MediaKind::Show, false, Some(true), &ext("mkv"), Some(episode)),
        Verdict::Skip(SkipReason::NoPrimary)
    );
}
