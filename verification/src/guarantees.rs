//! What holds of every scope, whatever it is told.

use vstd::prelude::*;
use crate::candidate::{CandidateView, MediaKind};
use crate::classify::{is_subtitle_extension, SkipReason, Verdict};
use crate::config::ConfigView;
use crate::entry::{EntryKind, EntryView};
use crate::media::{file_tokens, tokens_of, MoveView};
use crate::paths::{destination_of, naming_of, ExtraKind, PlacementView};
use crate::scope::{
    after_header, emit, extension_text, is_sample, opened, request_of, resolve,
    resolved, respond, settle, skip, unresolved, verdict_on, video_signature, EventView, ScopeView,
    SkippedView, StageView,
};
use crate::search::{
    first_step, names_a_season, next_step, ResolutionFailure, ResolutionView, SearchOutcomeView,
};

verus! {

/// The scope is busy with a question about the file in hand.
pub open spec fn asks_about_file(stage: StageView) -> bool {
    stage is ExtraKind || stage is Edition || stage is Description || stage is Language
        || stage is Forced
}

/// The scope is looking for its title.
pub open spec fn seeks_title(stage: StageView) -> bool {
    stage is Search || stage is Choice
}

/// The states that a scope can be in, from the moment it is opened.
///
/// A scope looks for a title only while it has none, and asks about a file
/// only once it has one. It walks its folders when it has a title and
/// opens them as scopes of their own when it has none, and in both cases
/// only when its files are done. A series scope without a title has no
/// files to classify.
pub open spec fn well_formed(s: ScopeView) -> bool {
    &&& s.position <= s.queue.len()
    &&& s.next_folder <= s.folders.len()
    &&& (s.stage is Header || asks_about_file(s.stage) ==> s.position < s.queue.len())
    &&& (seeks_title(s.stage) ==> s.primary is None)
    &&& (s.stage is Search ==> s.tokens.len() > 0)
    &&& (s.stage is Choice ==> s.offered.len() > 0)
    &&& (seeks_title(s.stage) && s.kind == MediaKind::Movie ==> s.position < s.queue.len())
    &&& (asks_about_file(s.stage) ==> s.primary is Some)
    &&& (s.stage is Walk ==> s.primary is Some)
    &&& (s.stage is Descend ==> s.primary is None)
    &&& (s.stage is Walk || s.stage is Descend ==> s.position == s.queue.len() && s.next_folder
        < s.folders.len())
    &&& (s.stage is Done ==> s.position == s.queue.len() && s.next_folder == s.folders.len())
    &&& (s.kind == MediaKind::Show && s.primary is None && !seeks_title(s.stage) ==> s.queue.len()
        == 0)
    &&& (s.kind == MediaKind::Show && (s.stage is Language || s.stage is Forced)
        ==> s.episode is Some)
}

/// `a` is the start of `b`.
pub open spec fn is_prefix<T>(a: Seq<T>, b: Seq<T>) -> bool {
    a.len() <= b.len() && b.take(a.len() as int) == a
}

/// Adding one element to a sequence extends it.
pub proof fn lemma_push_extends<T>(a: Seq<T>, x: T)
    ensures
        is_prefix(a, a.push(x)),
{
    assert(a.push(x).take(a.len() as int) =~= a);
}

/// `t` is `s` some steps further on: same scope, same title, same moves,
/// no file taken back.
pub open spec fn moved_on(s: ScopeView, t: ScopeView) -> bool {
    &&& t.kind == s.kind
    &&& t.library == s.library
    &&& t.key == s.key
    &&& t.directory == s.directory
    &&& t.primary == s.primary
    &&& t.queue == s.queue
    &&& t.folders == s.folders
    &&& t.next_folder == s.next_folder
    &&& t.tokens == s.tokens
    &&& t.offered == s.offered
    &&& t.moves == s.moves
    &&& t.position >= s.position
    &&& is_prefix(s.skipped, t.skipped)
}

/// Moving on changes nothing but the file in hand, the list of what was
/// skipped and what the scope waits for, and it ends in a state in which
/// the scope waits for a header, a walk, a scope below, or nothing.
pub proof fn lemma_settle(s: ScopeView)
    requires
        s.position <= s.queue.len(),
        s.next_folder <= s.folders.len(),
    ensures
        moved_on(s, settle(s)),
        settle(s).episode == s.episode,
        settle(s).position <= s.queue.len(),
        settle(s).stage is Header || settle(s).stage is Walk || settle(s).stage is Descend
            || settle(s).stage is Done,
        settle(s).stage is Header ==> settle(s).position < s.queue.len(),
        !(settle(s).stage is Header) ==> settle(s).position == s.queue.len(),
        settle(s).stage is Walk ==> s.primary is Some && s.next_folder < s.folders.len(),
        settle(s).stage is Descend ==> s.primary is None && s.next_folder < s.folders.len(),
        settle(s).stage is Done ==> s.next_folder == s.folders.len(),
    decreases s.queue.len() - s.position,
{
    if s.position < s.queue.len() {
        let file = s.queue[s.position as int];
        if file.kind != EntryKind::File {
            let next = ScopeView { position: s.position + 1, ..s };
            lemma_settle(next);
        } else if is_sample(file.path) {
            let next = ScopeView {
                position: s.position + 1,
                skipped: s.skipped.push(
                    SkippedView {
                        path: file.path,
                        reason: SkipReason::Sample,
                    },
                ),
                ..s
            };
            lemma_settle(next);
            assert(next.skipped.take(s.skipped.len() as int) =~= s.skipped);
            assert(settle(s).skipped.take(s.skipped.len() as int) =~= settle(s).skipped.take(
                next.skipped.len() as int,
            ).take(s.skipped.len() as int));
        } else {
            assert(s.skipped.take(s.skipped.len() as int) =~= s.skipped);
        }
    } else {
        assert(s.skipped.take(s.skipped.len() as int) =~= s.skipped);
    }
}

/// Skipping the file in hand gives no move, keeps the title and goes past
/// the file.
pub proof fn lemma_skip(s: ScopeView, reason: SkipReason)
    requires
        s.position < s.queue.len(),
        s.next_folder <= s.folders.len(),
        s.kind == MediaKind::Show && s.primary is None ==> s.queue.len() == 0,
    ensures
        skip(s, reason).moves == s.moves,
        skip(s, reason).primary == s.primary,
        skip(s, reason).kind == s.kind,
        skip(s, reason).queue == s.queue,
        skip(s, reason).folders == s.folders,
        skip(s, reason).next_folder == s.next_folder,
        skip(s, reason).position > s.position,
        is_prefix(s.skipped, skip(s, reason).skipped),
        skip(s, reason).skipped.len() > s.skipped.len(),
        skip(s, reason).skipped[s.skipped.len() as int] == (SkippedView {
            path: s.queue[s.position as int].path,
            reason,
        }),
        !seeks_title(skip(s, reason).stage),
        !asks_about_file(skip(s, reason).stage),
        well_formed(skip(s, reason)),
{
    let file = s.queue[s.position as int];
    let next = ScopeView {
        position: s.position + 1,
        skipped: s.skipped.push(SkippedView { path: file.path, reason }),
        episode: None,
        ..s
    };
    lemma_settle(next);
    assert(next.skipped.take(s.skipped.len() as int) =~= s.skipped);
    assert(settle(next).skipped.take(s.skipped.len() as int) =~= settle(next).skipped.take(
        next.skipped.len() as int,
    ).take(s.skipped.len() as int));
    assert(settle(next).skipped.take(next.skipped.len() as int)[s.skipped.len() as int]
        == settle(next).skipped[s.skipped.len() as int]);
}

/// Filing the file in hand adds exactly one move, keeps the title and
/// goes past the file.
pub proof fn lemma_emit(s: ScopeView, placement: PlacementView)
    requires
        s.position < s.queue.len(),
        s.next_folder <= s.folders.len(),
        s.primary is Some,
    ensures
        emit(s, placement).moves == s.moves.push(
            MoveView {
                from: s.queue[s.position as int].path,
                to: destination_of(
                    s.library,
                    naming_of(s.primary.unwrap()),
                    placement,
                    extension_text(s.queue[s.position as int]),
                ),
            },
        ),
        emit(s, placement).primary == s.primary,
        emit(s, placement).kind == s.kind,
        emit(s, placement).queue == s.queue,
        emit(s, placement).folders == s.folders,
        emit(s, placement).next_folder == s.next_folder,
        emit(s, placement).position > s.position,
        !seeks_title(emit(s, placement).stage),
        !asks_about_file(emit(s, placement).stage),
        well_formed(emit(s, placement)),
{
    let file = s.queue[s.position as int];
    let next = ScopeView {
        position: s.position + 1,
        moves: s.moves.push(
            MoveView {
                from: file.path,
                to: destination_of(
                    s.library,
                    naming_of(s.primary.unwrap()),
                    placement,
                    extension_text(file),
                ),
            },
        ),
        episode: None,
        ..s
    };
    lemma_settle(next);
}

/// Giving up the search for a title gives no move and leaves the scope
/// without a title.
pub proof fn lemma_unresolved(s: ScopeView, failure: ResolutionFailure)
    requires
        well_formed(s),
        s.primary is None,
        s.kind == MediaKind::Movie ==> s.position < s.queue.len(),
    ensures
        unresolved(s, failure).moves == s.moves,
        unresolved(s, failure).primary is None,
        unresolved(s, failure).kind == s.kind,
        !seeks_title(unresolved(s, failure).stage),
        well_formed(unresolved(s, failure)),
{
    let without = ScopeView { tokens: Seq::empty(), offered: Seq::empty(), ..s };
    match s.kind {
        MediaKind::Movie => {
            lemma_skip(without, SkipReason::Unresolved(failure));
        },
        MediaKind::Show => {
            let next = ScopeView {
                queue: Seq::empty(),
                position: 0,
                skipped: s.skipped.push(
                    SkippedView {
                        path: s.directory,
                        reason: SkipReason::Unresolved(failure),
                    },
                ),
                ..without
            };
            lemma_settle(next);
        },
    }
}

/// Taking up a step of the search keeps the scope well formed and gives
/// no move.
pub proof fn lemma_resolve(s: ScopeView, step: ResolutionView)
    requires
        well_formed(s),
        s.primary is None,
        s.kind == MediaKind::Movie ==> s.position < s.queue.len(),
        step matches ResolutionView::Search(tokens) ==> tokens.len() > 0,
        step matches ResolutionView::Offer(candidates) ==> candidates.len() > 0,
    ensures
        resolve(s, step).moves == s.moves,
        resolve(s, step).primary is None,
        resolve(s, step).kind == s.kind,
        well_formed(resolve(s, step)),
{
    match step {
        ResolutionView::Failed(failure) => {
            lemma_unresolved(s, failure);
        },
        _ => {},
    }
}

/// Choosing a title keeps the scope well formed; a film scope files the
/// file in hand, a series scope files nothing yet.
pub proof fn lemma_resolved(s: ScopeView, primary: CandidateView)
    requires
        well_formed(s),
        s.stage is Choice,
    ensures
        well_formed(resolved(s, primary)),
        resolved(s, primary).kind == s.kind,
        resolved(s, primary).primary == Some(primary),
        is_prefix(s.moves, resolved(s, primary).moves),
{
    let with_title = ScopeView {
        primary: Some(primary),
        tokens: Seq::empty(),
        offered: Seq::empty(),
        ..s
    };
    assert(s.moves.take(s.moves.len() as int) =~= s.moves);
    match s.kind {
        MediaKind::Movie => {
            lemma_emit(with_title, PlacementView::Feature);
            lemma_push_extends(
                s.moves,
                emit(with_title, PlacementView::Feature).moves.last(),
            );
        },
        MediaKind::Show => {
            lemma_settle(with_title);
        },
    }
}

/// What becomes of the file in hand once its header is known, in a
/// well-formed scope.
pub proof fn lemma_after_header(s: ScopeView, header: Option<Seq<u8>>)
    requires
        well_formed(s),
        s.stage is Header,
    ensures
        well_formed(after_header(s, header)),
        after_header(s, header).kind == s.kind,
        is_prefix(s.moves, after_header(s, header).moves),
        s.primary is Some ==> after_header(s, header).primary == s.primary,
        s.primary is Some ==> !seeks_title(after_header(s, header).stage),
{
    assert(s.moves.take(s.moves.len() as int) =~= s.moves);
    let file = s.queue[s.position as int];
    match verdict_on(s, file, header) {
        Verdict::Resolve => {
            lemma_resolve(s, first_step(file_tokens(file.name)));
        },
        Verdict::Episode(episode) => {
            let place = PlacementView::Episode { episode };
            lemma_emit(s, place);
            lemma_push_extends(s.moves, emit(s, place).moves.last());
        },
        Verdict::Skip(reason) => {
            lemma_skip(s, reason);
        },
        _ => {},
    }
}

/// A scope is well formed when it is opened.
pub proof fn lemma_opened_is_well_formed(
    kind: MediaKind,
    cfg: ConfigView,
    directory: Seq<char>,
    name: Seq<char>,
    files: Seq<EntryView>,
    folders: Seq<EntryView>,
)
    ensures
        well_formed(opened(kind, cfg, directory, name, files, folders)),
        opened(kind, cfg, directory, name, files, folders).primary is None,
        opened(kind, cfg, directory, name, files, folders).moves.len() == 0,
{
    let fresh = ScopeView {
        kind,
        library: cfg.plex_library,
        key: cfg.tmdb_key,
        directory,
        primary: None,
        queue: files,
        position: 0,
        folders,
        next_folder: 0,
        stage: StageView::Done,
        tokens: Seq::empty(),
        offered: Seq::empty(),
        episode: None,
        moves: Seq::empty(),
        skipped: Seq::empty(),
    };
    match kind {
        MediaKind::Movie => {
            lemma_settle(fresh);
        },
        MediaKind::Show => {
            let tokens = tokens_of(name);
            if names_a_season(tokens) {
                lemma_settle(
                    ScopeView {
                        queue: Seq::empty(),
                        position: 0,
                        skipped: fresh.skipped.push(
                            SkippedView {
                                path: directory,
                                reason: SkipReason::Unresolved(
                                    ResolutionFailure::SeasonFolder,
                                ),
                            },
                        ),
                        ..fresh
                    },
                );
            } else if tokens.len() == 0 {
                lemma_settle(
                    ScopeView {
                        queue: Seq::empty(),
                        position: 0,
                        skipped: fresh.skipped.push(
                            SkippedView {
                                path: directory,
                                reason: SkipReason::Unresolved(
                                    ResolutionFailure::NoMatch,
                                ),
                            },
                        ),
                        ..fresh
                    },
                );
            }
        },
    }
}

/// Whatever a well-formed scope is told, it stays well formed, keeps the
/// moves it has found in their order, and keeps its title if it has one.
pub proof fn lemma_respond(s: ScopeView, event: EventView)
    requires
        well_formed(s),
    ensures
        well_formed(respond(s, event)),
        respond(s, event).kind == s.kind,
        is_prefix(s.moves, respond(s, event).moves),
        s.primary is Some ==> respond(s, event).primary == s.primary,
{
    assert(s.moves.take(s.moves.len() as int) =~= s.moves);
    match (s.stage, event) {
        (StageView::Header, EventView::Header(header)) => {
            lemma_after_header(s, header);
        },
        (StageView::Search, EventView::Searched(outcome)) => {
            lemma_resolve(s, next_step(s.tokens, outcome));
        },
        (StageView::Choice, EventView::Chosen(pick)) => {
            lemma_unresolved(s, ResolutionFailure::SelectionCancelled);
            match pick {
                Some(i) => {
                    if i < s.offered.len() {
                        lemma_resolved(s, s.offered[i as int]);
                    }
                },
                None => {},
            }
        },
        (StageView::ExtraKind, EventView::ExtraKind(choice)) => {
            lemma_skip(s, SkipReason::PromptCancelled);
            lemma_skip(s, SkipReason::Ignored);
        },
        (StageView::Edition, EventView::Text(answer)) => {
            lemma_skip(s, SkipReason::PromptCancelled);
            match answer {
                Some(label) => {
                    lemma_emit(s, PlacementView::Edition { label });
                    lemma_push_extends(
                        s.moves,
                        emit(s, PlacementView::Edition { label }).moves.last(),
                    );
                },
                None => {},
            }
        },
        (StageView::Description(kind), EventView::Text(answer)) => {
            lemma_skip(s, SkipReason::PromptCancelled);
            match answer {
                Some(description) => {
                    lemma_emit(s, PlacementView::Extra { kind, description });
                    lemma_push_extends(
                        s.moves,
                        emit(
                            s,
                            PlacementView::Extra { kind, description },
                        ).moves.last(),
                    );
                },
                None => {},
            }
        },
        (StageView::Language, EventView::Text(answer)) => {
            lemma_skip(s, SkipReason::PromptCancelled);
            lemma_skip(s, SkipReason::Discarded);
        },
        (StageView::Forced(language), EventView::Confirmed(answer)) => {
            lemma_skip(s, SkipReason::PromptCancelled);
            lemma_skip(s, SkipReason::NoEpisode);
            match answer {
                Some(forced) => {
                    let film = PlacementView::Subtitle { language, forced };
                    lemma_emit(s, film);
                    lemma_push_extends(s.moves, emit(s, film).moves.last());
                    if s.episode is Some {
                        let series = PlacementView::EpisodeSubtitle {
                            episode: s.episode.unwrap(),
                            language,
                            forced,
                        };
                        lemma_emit(s, series);
                        lemma_push_extends(s.moves, emit(s, series).moves.last());
                    }
                },
                None => {},
            }
        },
        (StageView::Walk, EventView::Walked(entries)) => {
            lemma_settle(
                ScopeView { queue: entries, position: 0, next_folder: s.next_folder + 1, ..s },
            );
        },
        (StageView::Descend, EventView::Descended(moves)) => {
            let next = ScopeView { moves: s.moves + moves, next_folder: s.next_folder + 1, ..s };
            lemma_settle(next);
            assert((s.moves + moves).take(s.moves.len() as int) =~= s.moves);
        },
        _ => {},
    }
}

/// A well-formed scope asks for exactly what it waits for, and is done
/// only when it asks for nothing.
pub proof fn lemma_request_fits_stage(s: ScopeView)
    requires
        well_formed(s),
    ensures
        s.stage is Header <==> request_of(s) is ReadHeader,
        s.stage is Search <==> request_of(s) is Search,
        s.stage is Choice <==> request_of(s) is Choose,
        s.stage is ExtraKind <==> request_of(s) is ExtraKind,
        s.stage is Edition <==> request_of(s) is EditionLabel,
        s.stage is Description <==> request_of(s) is Description,
        s.stage is Language <==> request_of(s) is Language,
        s.stage is Forced <==> request_of(s) is Forced,
        s.stage is Walk <==> request_of(s) is Walk,
        s.stage is Descend <==> request_of(s) is Descend,
        s.stage is Done <==> request_of(s) is Done,
{
}

/// Once a film scope has its title, nothing it is told makes it search
/// again: it keeps the title and its next request is no search, so every
/// further video is asked about as an extra.
pub proof fn lemma_title_is_settled(s: ScopeView, event: EventView)
    requires
        well_formed(s),
        s.primary is Some,
    ensures
        respond(s, event).primary == s.primary,
        !(respond(s, event).stage is Search),
        !(respond(s, event).stage is Choice),
        !(request_of(respond(s, event)) is Search),
        !(request_of(respond(s, event)) is Choose),
        !(request_of(respond(s, event)) is Descend),
{
    lemma_respond(s, event);
}

/// Every answer without results costs the scope a token: a search that
/// follows a search is made with the tokens of the one before, less the
/// last.
pub proof fn lemma_search_narrows(s: ScopeView, outcome: SearchOutcomeView)
    requires
        well_formed(s),
        s.stage is Search,
        respond(s, EventView::Searched(outcome)).stage is Search,
    ensures
        respond(s, EventView::Searched(outcome)).tokens == s.tokens.drop_last(),
        respond(s, EventView::Searched(outcome)).tokens.len() + 1 == s.tokens.len(),
        respond(s, EventView::Searched(outcome)).position == s.position,
{
    match next_step(s.tokens, outcome) {
        ResolutionView::Failed(failure) => {
            lemma_unresolved(s, failure);
        },
        _ => {},
    }
}

/// In a film scope with a title, a video is asked about as an extra.
pub proof fn lemma_video_beside_title_is_extra(s: ScopeView, bytes: Seq<u8>)
    requires
        well_formed(s),
        s.kind == MediaKind::Movie,
        s.stage is Header,
        s.primary is Some,
        video_signature(bytes),
    ensures
        respond(s, EventView::Header(Some(bytes))).stage is ExtraKind,
        respond(s, EventView::Header(Some(bytes))).position == s.position,
        respond(s, EventView::Header(Some(bytes))).moves == s.moves,
{
}

/// A subtitle track that comes before the scope has a title is skipped:
/// it gives no move, nothing is asked about it, and the scope goes on
/// with what follows it.
pub proof fn lemma_subtitle_without_title_is_skipped(s: ScopeView, bytes: Seq<u8>)
    requires
        well_formed(s),
        s.stage is Header,
        s.primary is None,
        !video_signature(bytes),
        s.queue[s.position as int].extension is Some,
        is_subtitle_extension(s.queue[s.position as int].extension.unwrap()),
    ensures
        respond(s, EventView::Header(Some(bytes))).moves == s.moves,
        respond(s, EventView::Header(Some(bytes))).position > s.position,
        respond(s, EventView::Header(Some(bytes))).skipped.len() > s.skipped.len(),
        respond(s, EventView::Header(Some(bytes))).skipped[s.skipped.len() as int] == (SkippedView {
            path: s.queue[s.position as int].path,
            reason: SkipReason::SubtitleWithoutPrimary,
        }),
        !asks_about_file(respond(s, EventView::Header(Some(bytes))).stage),
{
    lemma_skip(s, SkipReason::SubtitleWithoutPrimary);
}

/// A video that the person chooses to ignore, or declines to class, gives
/// no move: the scope goes on with what follows it.
pub proof fn lemma_ignored_extra_gives_no_move(s: ScopeView, choice: Option<ExtraKind>)
    requires
        well_formed(s),
        s.stage is ExtraKind,
        choice is None || choice == Some(ExtraKind::Ignore),
    ensures
        respond(s, EventView::ExtraKind(choice)).moves == s.moves,
        respond(s, EventView::ExtraKind(choice)).position > s.position,
        !asks_about_file(respond(s, EventView::ExtraKind(choice)).stage),
{
    lemma_skip(s, SkipReason::PromptCancelled);
    lemma_skip(s, SkipReason::Ignored);
}

/// How far a stage is from the end of the work on the file in hand.
pub open spec fn steps_left(stage: StageView) -> nat {
    match stage {
        StageView::Header => 3,
        StageView::Search => 2,
        StageView::ExtraKind => 2,
        StageView::Language => 2,
        StageView::Choice => 1,
        StageView::Edition => 1,
        StageView::Description(_) => 1,
        StageView::Forced(_) => 1,
        StageView::Walk => 0,
        StageView::Descend => 0,
        StageView::Done => 0,
    }
}

/// The work that a scope has before it, as a list of counts of which the
/// earlier weigh more: the folders not yet done, whether a series is
/// still without its title, the files not yet done, the steps left on the
/// file in hand and the tokens left to search with.
pub open spec fn work_left(s: ScopeView) -> Seq<int> {
    seq![
        s.folders.len() - s.next_folder,
        if s.kind == MediaKind::Show && seeks_title(s.stage) {
            1
        } else {
            0
        },
        s.queue.len() - s.position,
        steps_left(s.stage) as int,
        s.tokens.len() as int,
    ]
}

/// `a` comes before `b` in the order of the dictionary.
pub open spec fn is_less(a: Seq<int>, b: Seq<int>) -> bool {
    exists|k: int|
        0 <= k < a.len() && k < b.len() && a[k] < b[k] && forall|j: int|
            0 <= j < k ==> a[j] == b[j]
}

/// The event is an answer to what the scope waits for.
pub open spec fn answers(stage: StageView, event: EventView) -> bool {
    match (stage, event) {
        (StageView::Header, EventView::Header(_)) => true,
        (StageView::Search, EventView::Searched(_)) => true,
        (StageView::Choice, EventView::Chosen(_)) => true,
        (StageView::ExtraKind, EventView::ExtraKind(_)) => true,
        (StageView::Edition, EventView::Text(_)) => true,
        (StageView::Description(_), EventView::Text(_)) => true,
        (StageView::Language, EventView::Text(_)) => true,
        (StageView::Forced(_), EventView::Confirmed(_)) => true,
        (StageView::Walk, EventView::Walked(_)) => true,
        (StageView::Descend, EventView::Descended(_)) => true,
        _ => false,
    }
}

/// Every answer brings a well-formed scope closer to its end: the work
/// left after it is less than the work left before. A scope that is
/// answered each time it asks is therefore done after finitely many
/// requests, and a search for a title ends after at most as many calls of
/// the service as the name has tokens.
pub proof fn lemma_every_answer_is_progress(s: ScopeView, event: EventView)
    requires
        well_formed(s),
        answers(s.stage, event),
    ensures
        is_less(work_left(respond(s, event)), work_left(s)),
        forall|i: int| 0 <= i < 5 ==> work_left(respond(s, event))[i] >= 0,
{
    let t = respond(s, event);
    lemma_respond(s, event);
    let before = work_left(s);
    let after = work_left(t);
    match (s.stage, event) {
        (StageView::Header, EventView::Header(header)) => {
            let file = s.queue[s.position as int];
            match verdict_on(s, file, header) {
                Verdict::Resolve => {
                    let step = first_step(file_tokens(file.name));
                    match step {
                        ResolutionView::Failed(failure) => {
                            lemma_skip(
                                ScopeView { tokens: Seq::empty(), offered: Seq::empty(), ..s },
                                SkipReason::Unresolved(failure),
                            );
                            assert(after[2] < before[2]);
                        },
                        _ => {
                            assert(after[3] < before[3]);
                        },
                    }
                },
                Verdict::Episode(episode) => {
                    lemma_emit(s, PlacementView::Episode { episode });
                    assert(after[2] < before[2]);
                },
                Verdict::Skip(reason) => {
                    lemma_skip(s, reason);
                    assert(after[2] < before[2]);
                },
                _ => {
                    assert(after[3] < before[3]);
                },
            }
        },
        (StageView::Search, EventView::Searched(outcome)) => {
            match next_step(s.tokens, outcome) {
                ResolutionView::Failed(failure) => {
                    lemma_unresolved(s, failure);
                    if s.kind == MediaKind::Movie {
                        lemma_skip(
                            ScopeView { tokens: Seq::empty(), offered: Seq::empty(), ..s },
                            SkipReason::Unresolved(failure),
                        );
                        assert(after[2] < before[2]);
                    } else {
                        lemma_settle(
                            ScopeView {
                                queue: Seq::empty(),
                                position: 0,
                                skipped: s.skipped.push(
                                    SkippedView {
                                        path: s.directory,
                                        reason: SkipReason::Unresolved(failure),
                                    },
                                ),
                                tokens: Seq::empty(),
                                offered: Seq::empty(),
                                ..s
                            },
                        );
                        assert(after[1] < before[1]);
                    }
                },
                ResolutionView::Search(fewer) => {
                    assert(after[4] < before[4]);
                },
                ResolutionView::Offer(_) => {
                    assert(after[3] < before[3]);
                },
            }
        },
        (StageView::Choice, EventView::Chosen(pick)) => {
            let chosen = pick is Some && pick.unwrap() < s.offered.len();
            if chosen {
                let primary = s.offered[pick.unwrap() as int];
                lemma_resolved(s, primary);
                let with_title = ScopeView {
                    primary: Some(primary),
                    tokens: Seq::empty(),
                    offered: Seq::empty(),
                    ..s
                };
                if s.kind == MediaKind::Movie {
                    lemma_emit(with_title, PlacementView::Feature);
                    assert(after[2] < before[2]);
                } else {
                    lemma_settle(with_title);
                    assert(after[1] < before[1]);
                }
            } else {
                let failure = ResolutionFailure::SelectionCancelled;
                lemma_unresolved(s, failure);
                if s.kind == MediaKind::Movie {
                    lemma_skip(
                        ScopeView { tokens: Seq::empty(), offered: Seq::empty(), ..s },
                        SkipReason::Unresolved(failure),
                    );
                    assert(after[2] < before[2]);
                } else {
                    lemma_settle(
                        ScopeView {
                            queue: Seq::empty(),
                            position: 0,
                            skipped: s.skipped.push(
                                SkippedView {
                                    path: s.directory,
                                    reason: SkipReason::Unresolved(failure),
                                },
                            ),
                            tokens: Seq::empty(),
                            offered: Seq::empty(),
                            ..s
                        },
                    );
                    assert(after[1] < before[1]);
                }
            }
        },
        (StageView::ExtraKind, EventView::ExtraKind(choice)) => {
            lemma_skip(s, SkipReason::PromptCancelled);
            lemma_skip(s, SkipReason::Ignored);
            if choice is None || choice == Some(ExtraKind::Ignore) {
                assert(after[2] < before[2]);
            } else {
                assert(after[3] < before[3]);
            }
        },
        (StageView::Edition, EventView::Text(answer)) => {
            lemma_skip(s, SkipReason::PromptCancelled);
            if answer is Some {
                lemma_emit(s, PlacementView::Edition { label: answer.unwrap() });
            }
            assert(after[2] < before[2]);
        },
        (StageView::Description(kind), EventView::Text(answer)) => {
            lemma_skip(s, SkipReason::PromptCancelled);
            if answer is Some {
                lemma_emit(s, PlacementView::Extra { kind, description: answer.unwrap() });
            }
            assert(after[2] < before[2]);
        },
        (StageView::Language, EventView::Text(answer)) => {
            lemma_skip(s, SkipReason::PromptCancelled);
            lemma_skip(s, SkipReason::Discarded);
            if answer is Some && answer.unwrap().len() > 0 {
                assert(after[3] < before[3]);
            } else {
                assert(after[2] < before[2]);
            }
        },
        (StageView::Forced(language), EventView::Confirmed(answer)) => {
            lemma_skip(s, SkipReason::PromptCancelled);
            lemma_skip(s, SkipReason::NoEpisode);
            if answer is Some {
                let forced = answer.unwrap();
                lemma_emit(s, PlacementView::Subtitle { language, forced });
                if s.episode is Some {
                    lemma_emit(
                        s,
                        PlacementView::EpisodeSubtitle {
                            episode: s.episode.unwrap(),
                            language,
                            forced,
                        },
                    );
                }
            }
            assert(after[2] < before[2]);
        },
        (StageView::Walk, EventView::Walked(entries)) => {
            lemma_settle(
                ScopeView { queue: entries, position: 0, next_folder: s.next_folder + 1, ..s },
            );
            assert(after[0] < before[0]);
        },
        (StageView::Descend, EventView::Descended(moves)) => {
            lemma_settle(
                ScopeView { moves: s.moves + moves, next_folder: s.next_folder + 1, ..s },
            );
            assert(after[0] < before[0]);
        },
        _ => {},
    }
}

} // verus!
