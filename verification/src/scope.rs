//! The classification of the files of one directory scope.
//!
//! A scope is worked through as a conversation. The scope says what it
//! needs next (the header of a file, an answer of the title service, a
//! choice or a text from the person at the keyboard, the files below a
//! folder) and is told the outcome; it then files the result and says what
//! it needs after that. Reading, asking and searching are left to the
//! caller; every decision is taken here.

use vstd::prelude::*;
use vstd::string::StrSliceExecFns;
use crate::candidate::{Candidate, CandidateView, MediaKind};
use crate::classify::{verdict, verdict_of, SkipReason, Verdict};
use crate::config::{Config, ConfigView};
use crate::entry::{Entry, EntryKind, EntryView};
use crate::episode::{episode_in, extract_episode, EpisodeRef};
use crate::guarantees::{lemma_opened_is_well_formed, lemma_respond, well_formed};
use crate::media::{
    file_tokens, tokenize_file_name, tokenize_media_name, tokens_of, Move, MoveView,
};
use crate::paths::{destination, destination_of, naming_of, ExtraKind, Naming, Placement, PlacementView};
use crate::search::{
    bearer, bearer_header, begin_resolution, build_search_url, continue_resolution, first_step, is_season_folder,
    join_tokens, joined, names_a_season, next_step, search_url, Resolution, ResolutionFailure,
    ResolutionView, SearchOutcome, SearchOutcomeView,
};
use crate::text::{contains_ignoring_case, contains_lowercased, copy_str};

verus! {

/// A skipped path and the reason, as plain values.
pub struct SkippedView {
    pub path: Seq<char>,
    pub reason: SkipReason,
}

/// What a scope is waiting for, as plain values.
pub enum StageView {
    Header,
    Search,
    Choice,
    ExtraKind,
    Edition,
    Description(ExtraKind),
    Language,
    Forced(Seq<char>),
    Walk,
    Descend,
    Done,
}

/// What a scope asks of its caller, as plain values.
pub enum RequestView {
    ReadHeader { path: Seq<char> },
    Search { url: Seq<char>, authorization: Seq<char> },
    Choose { context: Seq<char> },
    ExtraKind { path: Seq<char> },
    EditionLabel,
    Description { kind: ExtraKind, initial: Seq<char> },
    Language { path: Seq<char> },
    Forced,
    Walk { folder: Seq<char> },
    Descend { folder: Seq<char> },
    Done,
}

/// What a scope is told, as plain values.
pub enum EventView {
    Header(Option<Seq<u8>>),
    Searched(SearchOutcomeView),
    Chosen(Option<usize>),
    ExtraKind(Option<ExtraKind>),
    Text(Option<Seq<char>>),
    Confirmed(Option<bool>),
    Walked(Seq<EntryView>),
    Descended(Seq<MoveView>),
}

/// The state of a scope, as plain values.
pub struct ScopeView {
    pub kind: MediaKind,
    /// The root of the library.
    pub library: Seq<char>,
    /// The key that authorises calls of the title service.
    pub key: Seq<char>,
    /// The path of the directory of the scope.
    pub directory: Seq<char>,
    /// The title of the scope, once there is one.
    pub primary: Option<CandidateView>,
    /// The files being classified, in order.
    pub queue: Seq<EntryView>,
    /// How many of them are done.
    pub position: nat,
    /// The folders of the directory, in order.
    pub folders: Seq<EntryView>,
    /// How many of them are done.
    pub next_folder: nat,
    pub stage: StageView,
    /// The tokens of the search that is under way.
    pub tokens: Seq<Seq<char>>,
    /// The candidates on offer.
    pub offered: Seq<CandidateView>,
    /// The episode of the file in hand.
    pub episode: Option<EpisodeRef>,
    /// The moves found so far, in order of discovery.
    pub moves: Seq<MoveView>,
    /// What was skipped so far, in order.
    pub skipped: Seq<SkippedView>,
}

/// Whether the start of a file shows it to be a video, as
/// `infer::is_video` judges it.
pub uninterp spec fn video_signature(header: Seq<u8>) -> bool;

/// A path that holds the word `sample`, in any case, is left out
/// unseen.
pub open spec fn is_sample(path: Seq<char>) -> bool {
    contains_lowercased(path, "sample"@)
}

/// The extension of an entry as it goes into a destination: empty for an
/// entry without one.
pub open spec fn extension_text(entry: EntryView) -> Seq<char> {
    match entry.extension {
        Some(extension) => extension,
        None => Seq::empty(),
    }
}

/// The file in hand, if any.
pub open spec fn current(s: ScopeView) -> Option<EntryView> {
    if s.position < s.queue.len() {
        Some(s.queue[s.position as int])
    } else {
        None
    }
}

/// The folder that is next, if any.
pub open spec fn current_folder(s: ScopeView) -> Option<EntryView> {
    if s.next_folder < s.folders.len() {
        Some(s.folders[s.next_folder as int])
    } else {
        None
    }
}

/// Moves on to the next thing to do. Entries that are no files are passed
/// over, files with `sample` in their path are skipped, and the first
/// other file has its header asked for. When the files are done the next
/// folder is walked for further files of the title if the scope has one,
/// and opened as a scope of its own if not. When the folders are done, so
/// is the scope.
pub open spec fn settle(s: ScopeView) -> ScopeView
    decreases s.queue.len() - s.position,
{
    if s.position < s.queue.len() {
        let file = s.queue[s.position as int];
        if file.kind != EntryKind::File {
            settle(ScopeView { position: s.position + 1, ..s })
        } else if is_sample(file.path) {
            settle(
                ScopeView {
                    position: s.position + 1,
                    skipped: s.skipped.push(
                        SkippedView { path: file.path, reason: SkipReason::Sample },
                    ),
                    ..s
                },
            )
        } else {
            ScopeView { stage: StageView::Header, ..s }
        }
    } else if s.next_folder < s.folders.len() {
        if s.primary is Some {
            ScopeView { stage: StageView::Walk, ..s }
        } else {
            ScopeView { stage: StageView::Descend, ..s }
        }
    } else {
        ScopeView { stage: StageView::Done, ..s }
    }
}

/// Gives up on the file in hand, for the given reason, and moves on.
pub open spec fn skip(s: ScopeView, reason: SkipReason) -> ScopeView {
    match current(s) {
        Some(file) => settle(
            ScopeView {
                position: s.position + 1,
                skipped: s.skipped.push(SkippedView { path: file.path, reason }),
                episode: None,
                ..s
            },
        ),
        None => settle(s),
    }
}

/// Files the file in hand under the title of the scope, at the given
/// place, and moves on.
pub open spec fn emit(s: ScopeView, placement: PlacementView) -> ScopeView {
    match (current(s), s.primary) {
        (Some(file), Some(primary)) => settle(
            ScopeView {
                position: s.position + 1,
                moves: s.moves.push(
                    MoveView {
                        from: file.path,
                        to: destination_of(
                            s.library,
                            naming_of(primary),
                            placement,
                            extension_text(file),
                        ),
                    },
                ),
                episode: None,
                ..s
            },
        ),
        _ => skip(s, SkipReason::NoPrimary),
    }
}

/// The title was chosen. A film scope files the file in hand as the film
/// itself. A series scope goes on to its files.
pub open spec fn resolved(s: ScopeView, primary: CandidateView) -> ScopeView {
    let with_title = ScopeView {
        primary: Some(primary),
        tokens: Seq::empty(),
        offered: Seq::empty(),
        ..s
    };
    match s.kind {
        MediaKind::Movie => emit(with_title, PlacementView::Feature),
        MediaKind::Show => settle(with_title),
    }
}

/// No title was found. A film scope skips the file in hand. A series
/// scope leaves its files alone and turns to its folders.
pub open spec fn unresolved(s: ScopeView, failure: ResolutionFailure) -> ScopeView {
    let without = ScopeView { tokens: Seq::empty(), offered: Seq::empty(), ..s };
    match s.kind {
        MediaKind::Movie => skip(without, SkipReason::Unresolved(failure)),
        MediaKind::Show => settle(
            ScopeView {
                queue: Seq::empty(),
                position: 0,
                skipped: s.skipped.push(
                    SkippedView { path: s.directory, reason: SkipReason::Unresolved(failure) },
                ),
                ..without
            },
        ),
    }
}

/// Takes up a step of the resolution: waits for the search, waits for the
/// choice, or takes note of the failure.
pub open spec fn resolve(s: ScopeView, step: ResolutionView) -> ScopeView {
    match step {
        ResolutionView::Search(tokens) => ScopeView { stage: StageView::Search, tokens, ..s },
        ResolutionView::Offer(candidates) => ScopeView {
            stage: StageView::Choice,
            tokens: Seq::empty(),
            offered: candidates,
            ..s
        },
        ResolutionView::Failed(failure) => unresolved(s, failure),
    }
}

/// The episode that a scope reads from the path of a file: a series scope
/// the one that the path names, a film scope none.
pub open spec fn episode_for(kind: MediaKind, path: Seq<char>) -> Option<EpisodeRef> {
    match kind {
        MediaKind::Movie => None,
        MediaKind::Show => episode_in(path),
    }
}

/// The verdict on the file in hand, given its header, or `None` if the
/// header could not be read.
pub open spec fn verdict_on(s: ScopeView, file: EntryView, header: Option<Seq<u8>>) -> Verdict {
    verdict_of(
        s.kind,
        s.primary is Some,
        match header {
            Some(bytes) => Some(video_signature(bytes)),
            None => None,
        },
        file.extension,
        episode_for(s.kind, file.path),
    )
}

/// Acts on the verdict on the file in hand.
pub open spec fn follow(s: ScopeView, verdict: Verdict) -> ScopeView {
    match verdict {
        Verdict::Resolve => match current(s) {
            Some(file) => resolve(s, first_step(file_tokens(file.name))),
            None => settle(s),
        },
        Verdict::Extra => ScopeView { stage: StageView::ExtraKind, ..s },
        Verdict::Subtitle(episode) => ScopeView { stage: StageView::Language, episode, ..s },
        Verdict::Episode(episode) => emit(s, PlacementView::Episode { episode }),
        Verdict::Skip(reason) => skip(s, reason),
    }
}

/// What becomes of the file in hand once its header is known.
pub open spec fn after_header(s: ScopeView, header: Option<Seq<u8>>) -> ScopeView {
    match current(s) {
        None => settle(s),
        Some(file) => follow(s, verdict_on(s, file, header)),
    }
}

/// What becomes of a video beside the film once its kind is chosen.
pub open spec fn after_extra_kind(s: ScopeView, choice: Option<ExtraKind>) -> ScopeView {
    match choice {
        None => skip(s, SkipReason::PromptCancelled),
        Some(ExtraKind::Ignore) => skip(s, SkipReason::Ignored),
        Some(ExtraKind::Edition) => ScopeView { stage: StageView::Edition, ..s },
        Some(kind) => ScopeView { stage: StageView::Description(kind), ..s },
    }
}

/// What becomes of a subtitle track once its language is given.
pub open spec fn after_language(s: ScopeView, answer: Option<Seq<char>>) -> ScopeView {
    match answer {
        None => skip(s, SkipReason::PromptCancelled),
        Some(language) => if language.len() == 0 {
            skip(s, SkipReason::Discarded)
        } else {
            ScopeView { stage: StageView::Forced(language), ..s }
        },
    }
}

/// What becomes of a subtitle track once it is known whether it is forced.
pub open spec fn after_forced(s: ScopeView, language: Seq<char>, answer: Option<bool>) -> ScopeView {
    match answer {
        None => skip(s, SkipReason::PromptCancelled),
        Some(forced) => match s.kind {
            MediaKind::Movie => emit(s, PlacementView::Subtitle { language, forced }),
            MediaKind::Show => match s.episode {
                Some(episode) => emit(
                    s,
                    PlacementView::EpisodeSubtitle { episode, language, forced },
                ),
                None => skip(s, SkipReason::NoEpisode),
            },
        },
    }
}

/// The state of a scope after it was told `event`. An event that does not
/// answer what the scope is waiting for changes nothing.
pub open spec fn respond(s: ScopeView, event: EventView) -> ScopeView {
    match (s.stage, event) {
        (StageView::Header, EventView::Header(header)) => after_header(s, header),
        (StageView::Search, EventView::Searched(outcome)) => resolve(
            s,
            next_step(s.tokens, outcome),
        ),
        (StageView::Choice, EventView::Chosen(pick)) => match pick {
            Some(i) => if i < s.offered.len() {
                resolved(s, s.offered[i as int])
            } else {
                unresolved(s, ResolutionFailure::SelectionCancelled)
            },
            None => unresolved(s, ResolutionFailure::SelectionCancelled),
        },
        (StageView::ExtraKind, EventView::ExtraKind(choice)) => after_extra_kind(s, choice),
        (StageView::Edition, EventView::Text(answer)) => match answer {
            None => skip(s, SkipReason::PromptCancelled),
            Some(label) => emit(s, PlacementView::Edition { label }),
        },
        (StageView::Description(kind), EventView::Text(answer)) => match answer {
            None => skip(s, SkipReason::PromptCancelled),
            Some(description) => emit(s, PlacementView::Extra { kind, description }),
        },
        (StageView::Language, EventView::Text(answer)) => after_language(s, answer),
        (StageView::Forced(language), EventView::Confirmed(answer)) => after_forced(
            s,
            language,
            answer,
        ),
        (StageView::Walk, EventView::Walked(entries)) => match current_folder(s) {
            Some(_) => settle(
                ScopeView { queue: entries, position: 0, next_folder: s.next_folder + 1, ..s },
            ),
            None => settle(s),
        },
        (StageView::Descend, EventView::Descended(moves)) => match current_folder(s) {
            Some(_) => settle(
                ScopeView { moves: s.moves + moves, next_folder: s.next_folder + 1, ..s },
            ),
            None => settle(s),
        },
        _ => s,
    }
}

/// The scope of a directory as it is opened, before its first request.
///
/// Files and folders are taken in the order given. A film scope starts
/// with its files. A series scope starts with the search for the name of
/// its directory, unless that is the name of a season folder.
pub open spec fn opened(
    kind: MediaKind,
    cfg: ConfigView,
    directory: Seq<char>,
    name: Seq<char>,
    files: Seq<EntryView>,
    folders: Seq<EntryView>,
) -> ScopeView {
    let fresh = ScopeView {
        kind,
        library: cfg.plex_library,
        key: cfg.tmdb_key,
        directory,
        primary: None,
        queue: files,
        position: 0,
        folders,
        next_folder: 0,
        stage: StageView::Done,
        tokens: Seq::empty(),
        offered: Seq::empty(),
        episode: None,
        moves: Seq::empty(),
        skipped: Seq::empty(),
    };
    match kind {
        MediaKind::Movie => settle(fresh),
        MediaKind::Show => if names_a_season(tokens_of(name)) {
            unresolved(fresh, ResolutionFailure::SeasonFolder)
        } else {
            resolve(fresh, first_step(tokens_of(name)))
        },
    }
}

/// What a scope in state `s` asks of its caller.
pub open spec fn request_of(s: ScopeView) -> RequestView {
    match s.stage {
        StageView::Search => RequestView::Search {
            url: search_url(s.kind, joined(s.tokens)),
            authorization: bearer(s.key),
        },
        StageView::Walk => match current_folder(s) {
            Some(folder) => RequestView::Walk { folder: folder.path },
            None => RequestView::Done,
        },
        StageView::Descend => match current_folder(s) {
            Some(folder) => RequestView::Descend { folder: folder.path },
            None => RequestView::Done,
        },
        StageView::Done => RequestView::Done,
        StageView::Choice => RequestView::Choose {
            context: match (s.kind, current(s)) {
                (MediaKind::Movie, Some(file)) => file.path,
                _ => s.directory,
            },
        },
        stage => match current(s) {
            None => RequestView::Done,
            Some(file) => match stage {
                StageView::Header => RequestView::ReadHeader { path: file.path },
                StageView::ExtraKind => RequestView::ExtraKind { path: file.path },
                StageView::Edition => RequestView::EditionLabel,
                StageView::Description(kind) => RequestView::Description {
                    kind,
                    initial: file.stem,
                },
                StageView::Language => RequestView::Language { path: file.path },
                _ => RequestView::Forced,
            },
        },
    }
}

/// A path that gave no move, and why.
#[derive(Clone, Debug, PartialEq, Eq)]
pub struct Skipped {
    pub path: String,
    pub reason: SkipReason,
}

impl View for Skipped {
    type V = SkippedView;

    open spec fn view(&self) -> SkippedView {
        SkippedView { path: self.path@, reason: self.reason }
    }
}

impl DeepView for Skipped {
    type V = SkippedView;

    open spec fn deep_view(&self) -> SkippedView {
        self.view()
    }
}

/// What a scope asks of its caller.
#[derive(Clone, Debug, PartialEq, Eq)]
pub enum Request {
    /// Read the first bytes of the file at `path` and answer with
    /// `Event::Header`.
    ReadHeader { path: String },
    /// Fetch `url` from the title service, with `authorization` as the
    /// header of that name, and answer with `Event::Searched`.
    Search { url: String, authorization: String },
    /// Let the person choose among the candidates on offer, for the file
    /// or directory `context`, and answer with `Event::Chosen`.
    Choose { context: String },
    /// Ask what kind of extra the file at `path` is and answer with
    /// `Event::ExtraKind`.
    ExtraKind { path: String },
    /// Ask for the label of the edition and answer with `Event::Text`.
    EditionLabel,
    /// Ask for a description of the extra, offering `initial`, and answer
    /// with `Event::Text`.
    Description { kind: ExtraKind, initial: String },
    /// Ask for the language of the subtitle track at `path` and answer
    /// with `Event::Text`.
    Language { path: String },
    /// Ask whether the subtitle track is forced and answer with
    /// `Event::Confirmed`.
    Forced,
    /// List every entry below `folder`, at any depth, and answer with
    /// `Event::Walked`.
    Walk { folder: String },
    /// Work through `folder` as a scope of its own and answer with
    /// `Event::Descended`.
    Descend { folder: String },
    /// Nothing is left to do.
    Done,
}

impl View for Request {
    type V = RequestView;

    open spec fn view(&self) -> RequestView {
        match self {
            Request::ReadHeader { path } => RequestView::ReadHeader { path: path@ },
            Request::Search { url, authorization } => RequestView::Search {
                url: url@,
                authorization: authorization@,
            },
            Request::Choose { context } => RequestView::Choose { context: context@ },
            Request::ExtraKind { path } => RequestView::ExtraKind { path: path@ },
            Request::EditionLabel => RequestView::EditionLabel,
            Request::Description { kind, initial } => RequestView::Description {
                kind: *kind,
                initial: initial@,
            },
            Request::Language { path } => RequestView::Language { path: path@ },
            Request::Forced => RequestView::Forced,
            Request::Walk { folder } => RequestView::Walk { folder: folder@ },
            Request::Descend { folder } => RequestView::Descend { folder: folder@ },
            Request::Done => RequestView::Done,
        }
    }
}

/// What a scope is told. In every answer of a person `None` stands for a
/// prompt that was cancelled.
#[derive(Clone, Debug, PartialEq, Eq)]
pub enum Event {
    /// The first bytes of the file, or `None` if it could not be read.
    Header(Option<Vec<u8>>),
    /// How the call of the title service ended.
    Searched(SearchOutcome),
    /// The index of the chosen candidate among those on offer.
    Chosen(Option<usize>),
    /// The chosen kind of extra.
    ExtraKind(Option<ExtraKind>),
    /// The text that was entered.
    Text(Option<String>),
    /// The answer to a yes-or-no question.
    Confirmed(Option<bool>),
    /// The entries found below the folder, in the order of the walk.
    Walked(Vec<Entry>),
    /// The moves that the scope of the folder gave.
    Descended(Vec<Move>),
}

impl View for Event {
    type V = EventView;

    open spec fn view(&self) -> EventView {
        match self {
            Event::Header(header) => EventView::Header(
                match header {
                    Some(bytes) => Some(bytes@),
                    None => None,
                },
            ),
            Event::Searched(outcome) => EventView::Searched(outcome@),
            Event::Chosen(pick) => EventView::Chosen(*pick),
            Event::ExtraKind(choice) => EventView::ExtraKind(*choice),
            Event::Text(answer) => EventView::Text(answer.deep_view()),
            Event::Confirmed(answer) => EventView::Confirmed(*answer),
            Event::Walked(entries) => EventView::Walked(entries.deep_view()),
            Event::Descended(moves) => EventView::Descended(moves.deep_view()),
        }
    }
}

/// What a scope is waiting for.
enum Stage {
    Header,
    Search,
    Choice,
    ExtraKind,
    Edition,
    Description(ExtraKind),
    Language,
    Forced(String),
    Walk,
    Descend,
    Done,
}

impl View for Stage {
    type V = StageView;

    closed spec fn view(&self) -> StageView {
        match self {
            Stage::Header => StageView::Header,
            Stage::Search => StageView::Search,
            Stage::Choice => StageView::Choice,
            Stage::ExtraKind => StageView::ExtraKind,
            Stage::Edition => StageView::Edition,
            Stage::Description(kind) => StageView::Description(*kind),
            Stage::Language => StageView::Language,
            Stage::Forced(language) => StageView::Forced(language@),
            Stage::Walk => StageView::Walk,
            Stage::Descend => StageView::Descend,
            Stage::Done => StageView::Done,
        }
    }
}

/// The classification of one directory scope, under way.
pub struct Scope {
    kind: MediaKind,
    library: String,
    key: String,
    directory: String,
    primary: Option<Candidate>,
    queue: Vec<Entry>,
    position: usize,
    folders: Vec<Entry>,
    next_folder: usize,
    stage: Stage,
    tokens: Vec<String>,
    offered: Vec<Candidate>,
    episode: Option<EpisodeRef>,
    moves: Vec<Move>,
    skipped: Vec<Skipped>,
}

impl View for Scope {
    type V = ScopeView;

    closed spec fn view(&self) -> ScopeView {
        ScopeView {
            kind: self.kind,
            library: self.library@,
            key: self.key@,
            directory: self.directory@,
            primary: self.primary.deep_view(),
            queue: self.queue.deep_view(),
            position: self.position as nat,
            folders: self.folders.deep_view(),
            next_folder: self.next_folder as nat,
            stage: self.stage@,
            tokens: self.tokens.deep_view(),
            offered: self.offered.deep_view(),
            episode: self.episode,
            moves: self.moves.deep_view(),
            skipped: self.skipped.deep_view(),
        }
    }
}

/// Calls `infer::is_video` on the first bytes of a file. The answer is
/// what the crate makes of these bytes, which depends on nothing else.
#[verifier::external_body]
fn is_video(header: &Vec<u8>) -> (video: bool)
    ensures
        video == video_signature(header@),
{
    infer::is_video(header)
}

fn path_is_sample(path: &str) -> (r: bool)
    ensures
        r == is_sample(path@),
{
    contains_ignoring_case(path, "sample")
}

fn is_passed_over(entry: &Entry) -> (r: bool)
    ensures
        r == (entry@.kind != EntryKind::File || is_sample(entry@.path)),
{
    match entry.kind {
        EntryKind::File => path_is_sample(entry.path.as_str()),
        _ => true,
    }
}

impl Scope {
    /// Opens the scope of a directory: `directory` is its path, `name` the
    /// last component of that path, `files` and `folders` what it holds,
    /// in the order of treatment. Moves will lead below the library that
    /// the settings name, and searches will carry their key.
    pub fn open(
        kind: MediaKind,
        cfg: &Config,
        directory: String,
        name: &str,
        files: Vec<Entry>,
        folders: Vec<Entry>,
    ) -> (scope: Scope)
        ensures
            scope@ == opened(
                kind,
                cfg@,
                directory@,
                name@,
                files.deep_view(),
                folders.deep_view(),
            ),
            well_formed(scope@),
    {
        proof {
            lemma_opened_is_well_formed(
                kind,
                cfg@,
                directory@,
                name@,
                files.deep_view(),
                folders.deep_view(),
            );
        }
        let mut scope = Scope {
            kind,
            library: cfg.plex_library.clone(),
            key: cfg.tmdb_key.clone(),
            directory,
            primary: None,
            queue: files,
            position: 0,
            folders,
            next_folder: 0,
            stage: Stage::Done,
            tokens: Vec::new(),
            offered: Vec::new(),
            episode: None,
            moves: Vec::new(),
            skipped: Vec::new(),
        };
        assert(scope.tokens.deep_view() =~= Seq::<Seq<char>>::empty());
        assert(scope.offered.deep_view() =~= Seq::<CandidateView>::empty());
        assert(scope.moves.deep_view() =~= Seq::<MoveView>::empty());
        assert(scope.skipped.deep_view() =~= Seq::<SkippedView>::empty());
        match kind {
            MediaKind::Movie => scope.settle(),
            MediaKind::Show => {
                let tokens = tokenize_media_name(copy_str(name));
                if is_season_folder(&tokens) {
                    scope.unresolved(ResolutionFailure::SeasonFolder);
                } else {
                    scope.resolve(begin_resolution(tokens));
                }
            },
        }
        scope
    }

    fn settle(&mut self)
        ensures
            final(self)@ == settle(old(self)@),
    {
        while self.position < self.queue.len() && is_passed_over(&self.queue[self.position])
            invariant
                settle(self@) == settle(old(self)@),
            decreases self.queue.len() - self.position,
        {
            let ghost before = self@;
            match self.queue[self.position].kind {
                EntryKind::File => {
                    let path = copy_str(self.queue[self.position].path.as_str());
                    self.skipped.push(Skipped { path, reason: SkipReason::Sample });
                    assert(self.skipped.deep_view() =~= before.skipped.push(
                        SkippedView {
                            path: before.queue[before.position as int].path,
                            reason: SkipReason::Sample,
                        },
                    ));
                },
                _ => {},
            }
            self.position = self.position + 1;
        }
        if self.position < self.queue.len() {
            self.stage = Stage::Header;
        } else if self.next_folder < self.folders.len() {
            if self.primary.is_some() {
                self.stage = Stage::Walk;
            } else {
                self.stage = Stage::Descend;
            }
        } else {
            self.stage = Stage::Done;
        }
    }

    fn skip(&mut self, reason: SkipReason)
        ensures
            final(self)@ == skip(old(self)@, reason),
    {
        if self.position < self.queue.len() {
            let path = copy_str(self.queue[self.position].path.as_str());
            let ghost before = self.skipped.deep_view();
            self.skipped.push(Skipped { path, reason });
            assert(self.skipped.deep_view() =~= before.push(SkippedView { path: path@, reason }));
            self.position = self.position + 1;
            self.episode = None;
        }
        self.settle();
    }

    fn emit(&mut self, placement: Placement)
        ensures
            final(self)@ == emit(old(self)@, placement@),
    {
        if self.position < self.queue.len() {
            match &self.primary {
                Some(primary) => {
                    let file = &self.queue[self.position];
                    let naming = Naming::of(primary);
                    let to = match &file.extension {
                        Some(extension) => destination(
                            self.library.as_str(),
                            &naming,
                            &placement,
                            extension.as_str(),
                        ),
                        None => {
                            let none = "";
                            proof {
                                reveal_strlit("");
                            }
                            assert(none@ =~= Seq::<char>::empty());
                            destination(self.library.as_str(), &naming, &placement, none)
                        },
                    };
                    let from = copy_str(file.path.as_str());
                    let ghost before = self.moves.deep_view();
                    self.moves.push(Move { from, to });
                    assert(self.moves.deep_view() =~= before.push(MoveView { from: from@, to: to@ }));
                    self.position = self.position + 1;
                    self.episode = None;
                    self.settle();
                    return ;
                },
                None => {},
            }
        }
        self.skip(SkipReason::NoPrimary);
    }

    fn resolved(&mut self, primary: Candidate)
        ensures
            final(self)@ == resolved(old(self)@, primary@),
    {
        self.primary = Some(primary);
        self.tokens = Vec::new();
        self.offered = Vec::new();
        assert(self.tokens.deep_view() =~= Seq::<Seq<char>>::empty());
        assert(self.offered.deep_view() =~= Seq::<CandidateView>::empty());
        match self.kind {
            MediaKind::Movie => self.emit(Placement::Feature),
            MediaKind::Show => self.settle(),
        }
    }

    fn unresolved(&mut self, failure: ResolutionFailure)
        ensures
            final(self)@ == unresolved(old(self)@, failure),
    {
        self.tokens = Vec::new();
        self.offered = Vec::new();
        assert(self.tokens.deep_view() =~= Seq::<Seq<char>>::empty());
        assert(self.offered.deep_view() =~= Seq::<CandidateView>::empty());
        match self.kind {
            MediaKind::Movie => self.skip(SkipReason::Unresolved(failure)),
            MediaKind::Show => {
                let path = copy_str(self.directory.as_str());
                let ghost before = self.skipped.deep_view();
                self.skipped.push(Skipped { path, reason: SkipReason::Unresolved(failure) });
                assert(self.skipped.deep_view() =~= before.push(
                    SkippedView { path: path@, reason: SkipReason::Unresolved(failure) },
                ));
                self.queue = Vec::new();
                assert(self.queue.deep_view() =~= Seq::<EntryView>::empty());
                self.position = 0;
                self.settle();
            },
        }
    }

    fn resolve(&mut self, step: Resolution)
        ensures
            final(self)@ == resolve(old(self)@, step@),
    {
        match step {
            Resolution::Search(tokens) => {
                self.tokens = tokens;
                self.stage = Stage::Search;
            },
            Resolution::Offer(candidates) => {
                self.tokens = Vec::new();
                assert(self.tokens.deep_view() =~= Seq::<Seq<char>>::empty());
                self.offered = candidates;
                self.stage = Stage::Choice;
            },
            Resolution::Failed(failure) => self.unresolved(failure),
        }
    }

    fn follow(&mut self, verdict: Verdict)
        ensures
            final(self)@ == follow(old(self)@, verdict),
    {
        match verdict {
            Verdict::Resolve => {
                if self.position < self.queue.len() {
                    let tokens = tokenize_file_name(self.queue[self.position].name.as_str());
                    self.resolve(begin_resolution(tokens));
                } else {
                    self.settle();
                }
            },
            Verdict::Extra => {
                self.stage = Stage::ExtraKind;
            },
            Verdict::Subtitle(episode) => {
                self.episode = episode;
                self.stage = Stage::Language;
            },
            Verdict::Episode(episode) => self.emit(Placement::Episode { episode }),
            Verdict::Skip(reason) => self.skip(reason),
        }
    }

    fn after_header(&mut self, header: Option<Vec<u8>>)
        ensures
            final(self)@ == after_header(
                old(self)@,
                match header {
                    Some(bytes) => Some(bytes@),
                    None => None,
                },
            ),
    {
        if self.position >= self.queue.len() {
            self.settle();
            return ;
        }
        let video = match &header {
            Some(bytes) => Some(is_video(bytes)),
            None => None,
        };
        let file = &self.queue[self.position];
        let episode = match self.kind {
            MediaKind::Movie => None,
            MediaKind::Show => extract_episode(file.path.as_str()),
        };
        let found = verdict(self.kind, self.primary.is_some(), video, &file.extension, episode);
        self.follow(found);
    }

    fn after_extra_kind(&mut self, choice: Option<ExtraKind>)
        ensures
            final(self)@ == after_extra_kind(old(self)@, choice),
    {
        match choice {
            None => self.skip(SkipReason::PromptCancelled),
            Some(ExtraKind::Ignore) => self.skip(SkipReason::Ignored),
            Some(ExtraKind::Edition) => {
                self.stage = Stage::Edition;
            },
            Some(kind) => {
                self.stage = Stage::Description(kind);
            },
        }
    }

    fn after_language(&mut self, answer: Option<String>)
        ensures
            final(self)@ == after_language(old(self)@, answer.deep_view()),
    {
        match answer {
            None => self.skip(SkipReason::PromptCancelled),
            Some(language) => {
                if language.as_str().unicode_len() == 0 {
                    self.skip(SkipReason::Discarded);
                } else {
                    self.stage = Stage::Forced(language);
                }
            },
        }
    }

    fn after_forced(&mut self, language: String, answer: Option<bool>)
        ensures
            final(self)@ == after_forced(old(self)@, language@, answer),
    {
        match answer {
            None => self.skip(SkipReason::PromptCancelled),
            Some(forced) => match self.kind {
                MediaKind::Movie => self.emit(Placement::Subtitle { language, forced }),
                MediaKind::Show => match self.episode {
                    Some(episode) => self.emit(
                        Placement::EpisodeSubtitle { episode, language, forced },
                    ),
                    None => self.skip(SkipReason::NoEpisode),
                },
            },
        }
    }

    /// Tells the scope the outcome of what it asked for. The scope files
    /// the result and moves on to its next request. An event that does not
    /// answer the request changes nothing.
    pub fn respond(&mut self, event: Event)
        ensures
            final(self)@ == respond(old(self)@, event@),
            well_formed(old(self)@) ==> well_formed(final(self)@),
    {
        proof {
            if well_formed(self@) {
                lemma_respond(self@, event@);
            }
        }
        match event {
            Event::Header(header) => match self.stage {
                Stage::Header => self.after_header(header),
                _ => {},
            },
            Event::Searched(outcome) => match self.stage {
                Stage::Search => {
                    let mut tokens: Vec<String> = Vec::new();
                    std::mem::swap(&mut tokens, &mut self.tokens);
                    let step = continue_resolution(tokens, outcome);
                    self.resolve(step);
                },
                _ => {},
            },
            Event::Chosen(pick) => match self.stage {
                Stage::Choice => match pick {
                    Some(i) => {
                        if i < self.offered.len() {
                            let primary = self.offered.swap_remove(i);
                            self.resolved(primary);
                        } else {
                            self.unresolved(ResolutionFailure::SelectionCancelled);
                        }
                    },
                    None => self.unresolved(ResolutionFailure::SelectionCancelled),
                },
                _ => {},
            },
            Event::ExtraKind(choice) => match self.stage {
                Stage::ExtraKind => self.after_extra_kind(choice),
                _ => {},
            },
            Event::Text(answer) => match self.stage {
                Stage::Edition => match answer {
                    None => self.skip(SkipReason::PromptCancelled),
                    Some(label) => self.emit(Placement::Edition { label }),
                },
                Stage::Description(kind) => match answer {
                    None => self.skip(SkipReason::PromptCancelled),
                    Some(description) => self.emit(Placement::Extra { kind, description }),
                },
                Stage::Language => self.after_language(answer),
                _ => {},
            },
            Event::Confirmed(answer) => {
                let language = match &self.stage {
                    Stage::Forced(language) => Some(language.clone()),
                    _ => None,
                };
                match language {
                    Some(language) => self.after_forced(language, answer),
                    None => {},
                }
            },
            Event::Walked(entries) => match self.stage {
                Stage::Walk => {
                    if self.next_folder < self.folders.len() {
                        self.queue = entries;
                        self.position = 0;
                        self.next_folder = self.next_folder + 1;
                    }
                    self.settle();
                },
                _ => {},
            },
            Event::Descended(moves) => match self.stage {
                Stage::Descend => {
                    if self.next_folder < self.folders.len() {
                        let ghost before = self.moves.deep_view();
                        let mut found = moves;
                        self.moves.append(&mut found);
                        assert(self.moves.deep_view() =~= before + moves.deep_view());
                        self.next_folder = self.next_folder + 1;
                    }
                    self.settle();
                },
                _ => {},
            },
        }
    }

    /// What the scope needs next.
    pub fn request(&self) -> (request: Request)
        ensures
            request@ == request_of(self@),
    {
        match &self.stage {
            Stage::Search => {
                let query = join_tokens(&self.tokens);
                Request::Search {
                    url: build_search_url(self.kind, query.as_str()),
                    authorization: bearer_header(self.key.as_str()),
                }
            },
            Stage::Walk => {
                if self.next_folder < self.folders.len() {
                    Request::Walk { folder: copy_str(self.folders[self.next_folder].path.as_str()) }
                } else {
                    Request::Done
                }
            },
            Stage::Descend => {
                if self.next_folder < self.folders.len() {
                    Request::Descend {
                        folder: copy_str(self.folders[self.next_folder].path.as_str()),
                    }
                } else {
                    Request::Done
                }
            },
            Stage::Done => Request::Done,
            Stage::Choice => {
                let in_file = match self.kind {
                    MediaKind::Movie => self.position < self.queue.len(),
                    MediaKind::Show => false,
                };
                if in_file {
                    Request::Choose { context: copy_str(self.queue[self.position].path.as_str()) }
                } else {
                    Request::Choose { context: copy_str(self.directory.as_str()) }
                }
            },
            stage => {
                if self.position >= self.queue.len() {
                    return Request::Done;
                }
                let file = &self.queue[self.position];
                match stage {
                    Stage::Header => Request::ReadHeader { path: copy_str(file.path.as_str()) },
                    Stage::ExtraKind => Request::ExtraKind { path: copy_str(file.path.as_str()) },
                    Stage::Edition => Request::EditionLabel,
                    Stage::Description(kind) => Request::Description {
                        kind: *kind,
                        initial: copy_str(file.stem.as_str()),
                    },
                    Stage::Language => Request::Language { path: copy_str(file.path.as_str()) },
                    _ => Request::Forced,
                }
            },
        }
    }

    /// Whether nothing is left to do.
    pub fn is_done(&self) -> (done: bool)
        ensures
            done == (self@.stage is Done),
    {
        match self.stage {
            Stage::Done => true,
            _ => false,
        }
    }

    /// Whether the scope holds a film or a series.
    pub fn kind(&self) -> (kind: MediaKind)
        ensures
            kind == self@.kind,
    {
        self.kind
    }

    /// The title of the scope, once there is one.
    pub fn primary(&self) -> (primary: &Option<Candidate>)
        ensures
            primary.deep_view() == self@.primary,
    {
        &self.primary
    }

    /// The candidates to choose from, in the order in which the title
    /// service gave them.
    pub fn candidates(&self) -> (offered: &Vec<Candidate>)
        ensures
            offered.deep_view() == self@.offered,
    {
        &self.offered
    }

    /// The moves found so far, in order of discovery.
    pub fn moves(&self) -> (moves: &Vec<Move>)
        ensures
            moves.deep_view() == self@.moves,
    {
        &self.moves
    }

    /// What was skipped so far, in order.
    pub fn skipped(&self) -> (skipped: &Vec<Skipped>)
        ensures
            skipped.deep_view() == self@.skipped,
    {
        &self.skipped
    }

    /// Ends the scope and hands out its moves.
    pub fn into_moves(self) -> (moves: Vec<Move>)
        ensures
            moves.deep_view() == self@.moves,
    {
        self.moves
    }
}


} // verus!
