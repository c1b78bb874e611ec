//! The settings of a run, and the completion of paths typed at a prompt.

use vstd::prelude::*;
use vstd::string::{StrSliceExecFns, StringExecFns};
use crate::text::{chars_of, copy_str, starts_with, string_of};

verus! {

/// The settings of a run.
#[derive(Clone, Debug, PartialEq, Eq)]
pub struct Config {
    /// The key that authorises calls of the title service.
    pub tmdb_key: String,
    /// The root of the library that files are moved into.
    pub plex_library: String,
}

/// A `Config` as plain text.
pub struct ConfigView {
    pub tmdb_key: Seq<char>,
    pub plex_library: Seq<char>,
}

impl View for Config {
    type V = ConfigView;

    open spec fn view(&self) -> ConfigView {
        ConfigView { tmdb_key: self.tmdb_key@, plex_library: self.plex_library@ }
    }
}

/// What an attempt to read the settings file gave.
#[derive(Clone, Copy, Debug, PartialEq, Eq, Structural)]
pub enum ReadOutcome {
    /// The file was read.
    Read,
    /// There is no such file.
    NotFound,
    /// The file is there and could not be read.
    Failed,
}

/// What to do to come by the settings.
#[derive(Clone, Copy, Debug, PartialEq, Eq, Structural)]
pub enum LoadStep {
    /// Read the settings file.
    ReadFile,
    /// Ask for the settings and save them.
    RunWizard,
    /// Take the settings from the text that was read.
    Parse,
    /// Give up with the error of the read.
    Fail,
}

/// The next step towards the settings: `first` asks for a first run, and
/// `read` is the outcome of reading the file once that was tried. A first
/// run goes to the wizard without reading. Otherwise the file is read; a
/// file that is missing leads to the wizard, any other failure ends the
/// run.
pub open spec fn load_step_of(first: bool, read: Option<ReadOutcome>) -> LoadStep {
    if first {
        LoadStep::RunWizard
    } else {
        match read {
            None => LoadStep::ReadFile,
            Some(ReadOutcome::Read) => LoadStep::Parse,
            Some(ReadOutcome::NotFound) => LoadStep::RunWizard,
            Some(ReadOutcome::Failed) => LoadStep::Fail,
        }
    }
}

/// Says what to do next to come by the settings.
pub fn load_step(first: bool, read: Option<ReadOutcome>) -> (step: LoadStep)
    ensures
        step == load_step_of(first, read),
{
    if first {
        LoadStep::RunWizard
    } else {
        match read {
            None => LoadStep::ReadFile,
            Some(ReadOutcome::Read) => LoadStep::Parse,
            Some(ReadOutcome::NotFound) => LoadStep::RunWizard,
            Some(ReadOutcome::Failed) => LoadStep::Fail,
        }
    }
}

/// One entry of the directory that is searched for completions.
#[derive(Clone, Debug, PartialEq, Eq)]
pub struct Listed {
    pub path: String,
    pub is_dir: bool,
}

/// A `Listed` as plain values.
pub struct ListedView {
    pub path: Seq<char>,
    pub is_dir: bool,
}

impl View for Listed {
    type V = ListedView;

    open spec fn view(&self) -> ListedView {
        ListedView { path: self.path@, is_dir: self.is_dir }
    }
}

impl DeepView for Listed {
    type V = ListedView;

    open spec fn deep_view(&self) -> ListedView {
        self.view()
    }
}

/// The input names a directory whose entries are the suggestions, rather
/// than the start of an entry of its parent: it ends in a slash.
pub open spec fn names_directory(input: Seq<char>) -> bool {
    input.len() > 0 && input.last() == '/'
}

/// Whether the entries to suggest are those of the directory that the
/// input names, rather than those of its parent.
pub fn scans_input_itself(input: &str) -> (r: bool)
    ensures
        r == names_directory(input@),
{
    let chars = chars_of(input);
    chars.len() > 0 && chars[chars.len() - 1] == '/'
}

/// How many suggestions are kept at most.
pub const SUGGESTION_LIMIT: usize = 15;

/// An entry as it is suggested: a directory with a slash at its end.
pub open spec fn shown(entry: ListedView) -> Seq<char> {
    if entry.is_dir {
        entry.path + "/"@
    } else {
        entry.path
    }
}

/// A path completes the input if it starts with it and goes on after it.
pub open spec fn completes(input: Seq<char>, path: Seq<char>) -> bool {
    starts_with(path, input) && path.len() != input.len()
}

/// The suggestions for an input: the entries that complete it, in the
/// order of the listing, up to the limit.
pub open spec fn suggestions_for(input: Seq<char>, listing: Seq<ListedView>) -> Seq<Seq<char>>
    decreases listing.len(),
{
    if listing.len() == 0 {
        Seq::empty()
    } else {
        let before = suggestions_for(input, listing.drop_last());
        if before.len() < SUGGESTION_LIMIT && completes(input, shown(listing.last())) {
            before.push(shown(listing.last()))
        } else {
            before
        }
    }
}

/// The number of characters that two texts have in common at their start.
pub open spec fn common_len(a: Seq<char>, b: Seq<char>) -> nat
    decreases a.len(),
{
    if a.len() == 0 || b.len() == 0 || a[0] != b[0] {
        0
    } else {
        1 + common_len(a.drop_first(), b.drop_first())
    }
}

/// The longest text with which every one of the paths starts; the empty
/// text if there is no path.
pub open spec fn longest_common_prefix_of(paths: Seq<Seq<char>>) -> Seq<char>
    decreases paths.len(),
{
    if paths.len() == 0 {
        Seq::empty()
    } else if paths.len() == 1 {
        paths[0]
    } else {
        let before = longest_common_prefix_of(paths.drop_last());
        before.take(common_len(before, paths.last()) as int)
    }
}

/// Every one of the paths starts with `prefix`.
pub open spec fn is_common_prefix(prefix: Seq<char>, paths: Seq<Seq<char>>) -> bool {
    forall|i: int| 0 <= i < paths.len() ==> starts_with(#[trigger] paths[i], prefix)
}

/// Two texts agree on their first `common_len` characters and on no more.
pub proof fn lemma_common_len(a: Seq<char>, b: Seq<char>)
    ensures
        common_len(a, b) <= a.len(),
        common_len(a, b) <= b.len(),
        a.take(common_len(a, b) as int) == b.take(common_len(a, b) as int),
        common_len(a, b) < a.len() && common_len(a, b) < b.len() ==> a[common_len(a, b) as int]
            != b[common_len(a, b) as int],
    decreases a.len(),
{
    if a.len() == 0 || b.len() == 0 || a[0] != b[0] {
        assert(a.take(0) =~= b.take(0));
    } else {
        lemma_common_len(a.drop_first(), b.drop_first());
        let n = common_len(a.drop_first(), b.drop_first()) as int;
        assert(a.take(n + 1) =~= seq![a[0]] + a.drop_first().take(n));
        assert(b.take(n + 1) =~= seq![b[0]] + b.drop_first().take(n));
    }
}

/// An index up to which two texts agree, and at which they differ or one
/// of them ends, is their common length.
pub proof fn lemma_common_len_is(a: Seq<char>, b: Seq<char>, n: int)
    requires
        0 <= n <= a.len(),
        n <= b.len(),
        forall|i: int| 0 <= i < n ==> a[i] == b[i],
        n < a.len() && n < b.len() ==> a[n] != b[n],
    ensures
        common_len(a, b) == n,
{
    lemma_common_len(a, b);
    let m = common_len(a, b) as int;
    if m < n {
        assert(a[m] == b[m]);
    }
    if n < m {
        assert(a.take(m)[n] == b.take(m)[n]);
    }
}

/// The longest common prefix is a common prefix, and no common prefix is
/// longer.
pub proof fn lemma_longest_common_prefix(paths: Seq<Seq<char>>)
    requires
        paths.len() > 0,
    ensures
        is_common_prefix(longest_common_prefix_of(paths), paths),
        forall|other: Seq<char>|
            is_common_prefix(other, paths) ==> other.len() <= longest_common_prefix_of(
                paths,
            ).len(),
    decreases paths.len(),
{
    let prefix = longest_common_prefix_of(paths);
    if paths.len() == 1 {
        assert(paths[0].take(paths[0].len() as int) =~= paths[0]);
        assert forall|other: Seq<char>| is_common_prefix(other, paths) implies other.len()
            <= prefix.len() by {
            assert(starts_with(paths[0], other));
        }
    } else {
        let init = paths.drop_last();
        let before = longest_common_prefix_of(init);
        lemma_longest_common_prefix(init);
        lemma_common_len(before, paths.last());
        let n = common_len(before, paths.last()) as int;
        assert forall|i: int| 0 <= i < paths.len() implies starts_with(
            #[trigger] paths[i],
            prefix,
        ) by {
            if i < init.len() {
                assert(starts_with(init[i], before));
                assert(paths[i].take(n) =~= before.take(n)) by {
                    assert(paths[i].take(before.len() as int).take(n) =~= paths[i].take(n));
                }
            } else {
                assert(prefix =~= paths.last().take(n));
            }
        }
        assert forall|other: Seq<char>| is_common_prefix(other, paths) implies other.len()
            <= prefix.len() by {
            assert(is_common_prefix(other, init)) by {
                assert forall|i: int| 0 <= i < init.len() implies starts_with(
                    #[trigger] init[i],
                    other,
                ) by {
                    assert(starts_with(paths[i], other));
                }
            }
            assert(other.len() <= before.len());
            assert(starts_with(paths[paths.len() - 1], other));
            assert(starts_with(init[0], other));
            assert(starts_with(init[0], before));
            if other.len() > n {
                assert(before[n] == init[0].take(before.len() as int)[n]);
                assert(other[n] == init[0].take(other.len() as int)[n]);
                assert(other[n] == paths.last().take(other.len() as int)[n]);
                assert(before[n] == paths.last()[n]);
            }
        }
    }
}

/// The state of path completion at a prompt: the input it was last
/// brought up to date for, the suggestions for that input and what they
/// have in common.
#[derive(Clone, Debug)]
pub struct FilePathCompleter {
    input: String,
    paths: Vec<String>,
    lcp: String,
}

/// A `FilePathCompleter` as plain values.
pub struct FilePathCompleterView {
    pub input: Seq<char>,
    pub paths: Seq<Seq<char>>,
    pub lcp: Seq<char>,
}

impl View for FilePathCompleter {
    type V = FilePathCompleterView;

    closed spec fn view(&self) -> FilePathCompleterView {
        FilePathCompleterView {
            input: self.input@,
            paths: self.paths.deep_view(),
            lcp: self.lcp@,
        }
    }
}

/// The state before anything was typed.
pub open spec fn fresh_completer() -> FilePathCompleterView {
    FilePathCompleterView { input: Seq::empty(), paths: Seq::empty(), lcp: Seq::empty() }
}

/// The state after the completer was brought up to date: unchanged if the
/// input is the one it already holds, else the suggestions for the new
/// input and their longest common prefix.
pub open spec fn updated(
    completer: FilePathCompleterView,
    input: Seq<char>,
    listing: Seq<ListedView>,
) -> FilePathCompleterView {
    if input == completer.input {
        completer
    } else {
        FilePathCompleterView {
            input,
            paths: suggestions_for(input, listing),
            lcp: longest_common_prefix_of(suggestions_for(input, listing)),
        }
    }
}

/// What the tab key puts in place of the input: the highlighted suggestion
/// if there is one, else what all suggestions have in common, if that is
/// anything.
pub open spec fn completion_of(
    completer: FilePathCompleterView,
    highlighted: Option<Seq<char>>,
) -> Option<Seq<char>> {
    match highlighted {
        Some(suggestion) => Some(suggestion),
        None => if completer.lcp.len() == 0 {
            None
        } else {
            Some(completer.lcp)
        },
    }
}

fn chars_equal(a: &Vec<char>, b: &Vec<char>) -> (r: bool)
    ensures
        r == (a@ == b@),
{
    if a.len() != b.len() {
        return false;
    }
    let mut i: usize = 0;
    while i < a.len()
        invariant
            i <= a.len(),
            a.len() == b.len(),
            forall|j: int| 0 <= j < i ==> a@[j] == b@[j],
        decreases a.len() - i,
    {
        if a[i] != b[i] {
            return false;
        }
        i = i + 1;
    }
    assert(a@ =~= b@);
    true
}

fn chars_complete(input: &Vec<char>, path: &Vec<char>) -> (r: bool)
    ensures
        r == completes(input@, path@),
{
    if path.len() <= input.len() {
        proof {
            if path.len() == input.len() {
            } else {
                assert(!starts_with(path@, input@));
            }
        }
        return false;
    }
    let mut i: usize = 0;
    while i < input.len()
        invariant
            i <= input.len(),
            input.len() < path.len(),
            forall|j: int| 0 <= j < i ==> input@[j] == path@[j],
        decreases input.len() - i,
    {
        if input[i] != path[i] {
            assert(path@.take(input.len() as int)[i as int] != input@[i as int]);
            return false;
        }
        i = i + 1;
    }
    assert(path@.take(input.len() as int) =~= input@);
    true
}

/// The number of characters that the first `limit` characters of `a` and
/// the whole of `b` have in common at their start.
fn common_length(a: &Vec<char>, limit: usize, b: &Vec<char>) -> (n: usize)
    requires
        limit <= a.len(),
    ensures
        n == common_len(a@.take(limit as int), b@),
        n <= limit,
{
    let mut n: usize = 0;
    while n < limit && n < b.len() && a[n] == b[n]
        invariant
            n <= limit <= a.len(),
            n <= b.len(),
            forall|i: int| 0 <= i < n ==> a@[i] == b@[i],
        decreases limit - n,
    {
        n = n + 1;
    }
    proof {
        lemma_common_len_is(a@.take(limit as int), b@, n as int);
    }
    n
}

impl Default for FilePathCompleter {
    fn default() -> (completer: FilePathCompleter)
        ensures
            completer@ == fresh_completer(),
    {
        let completer = FilePathCompleter {
            input: String::new(),
            paths: Vec::new(),
            lcp: String::new(),
        };
        assert(completer.paths.deep_view() =~= Seq::<Seq<char>>::empty());
        completer
    }
}

impl FilePathCompleter {
    /// Whether the completer has to be brought up to date for `input`,
    /// which takes a listing of the directory that the input points into.
    pub fn needs_update(&self, input: &str) -> (needed: bool)
        ensures
            needed == (input@ != self@.input),
    {
        let typed = chars_of(input);
        let held = chars_of(self.input.as_str());
        !chars_equal(&typed, &held)
    }

    /// Brings the completer up to date for `input`, given the entries of
    /// the directory that the input points into. Nothing changes if the
    /// input is the one the completer already holds.
    pub fn update_input(&mut self, input: &str, listing: &Vec<Listed>)
        ensures
            final(self)@ == updated(old(self)@, input@, listing.deep_view()),
    {
        if !self.needs_update(input) {
            return ;
        }
        let typed = chars_of(input);
        let mut paths: Vec<String> = Vec::new();
        let mut i: usize = 0;
        proof {
            assert(listing.deep_view().take(0) =~= Seq::<ListedView>::empty());
            assert(paths.deep_view() =~= Seq::<Seq<char>>::empty());
        }
        while i < listing.len()
            invariant
                i <= listing.len(),
                typed@ == input@,
                paths.deep_view() == suggestions_for(input@, listing.deep_view().take(i as int)),
            decreases listing.len() - i,
        {
            let entry = &listing[i];
            let mut path = copy_str(entry.path.as_str());
            if entry.is_dir {
                path.append("/");
            }
            proof {
                let seen = listing.deep_view().take(i + 1);
                assert(seen.drop_last() =~= listing.deep_view().take(i as int));
                assert(seen.last() == entry@);
                assert(path@ == shown(entry@));
            }
            let shown_chars = chars_of(path.as_str());
            if paths.len() < SUGGESTION_LIMIT && chars_complete(&typed, &shown_chars) {
                let ghost before = paths.deep_view();
                paths.push(path);
                assert(paths.deep_view() =~= before.push(path@));
            }
            i = i + 1;
        }
        assert(listing.deep_view().take(listing.len() as int) =~= listing.deep_view());
        self.input = copy_str(input);
        self.paths = paths;
        self.lcp = self.longest_common_prefix();
    }

    /// What all suggestions have in common at their start.
    pub fn longest_common_prefix(&self) -> (prefix: String)
        ensures
            prefix@ == longest_common_prefix_of(self@.paths),
    {
        if self.paths.len() == 0 {
            return String::new();
        }
        let first = chars_of(self.paths[0].as_str());
        let mut length: usize = first.len();
        let mut i: usize = 1;
        proof {
            assert(self@.paths.take(1) =~= seq![self@.paths[0]]);
            assert(first@.take(first.len() as int) =~= first@);
        }
        while i < self.paths.len()
            invariant
                1 <= i <= self.paths.len(),
                length <= first.len(),
                first@ == self@.paths[0],
                first@.take(length as int) == longest_common_prefix_of(self@.paths.take(i as int)),
            decreases self.paths.len() - i,
        {
            let next = chars_of(self.paths[i].as_str());
            let ghost before = first@.take(length as int);
            let n = common_length(&first, length, &next);
            proof {
                let seen = self@.paths.take(i + 1);
                assert(seen.drop_last() =~= self@.paths.take(i as int));
                assert(seen.last() == next@);
                assert(before.take(n as int) =~= first@.take(n as int));
            }
            length = n;
            i = i + 1;
        }
        assert(self@.paths.take(self.paths.len() as int) =~= self@.paths);
        let mut prefix: Vec<char> = Vec::new();
        let mut k: usize = 0;
        while k < length
            invariant
                k <= length <= first.len(),
                prefix@ == first@.take(k as int),
            decreases length - k,
        {
            prefix.push(first[k]);
            k = k + 1;
        }
        string_of(&prefix)
    }

    /// The suggestions for the input that the completer holds.
    pub fn suggestions(&self) -> (paths: Vec<String>)
        ensures
            paths.deep_view() == self@.paths,
    {
        let mut paths: Vec<String> = Vec::new();
        let mut i: usize = 0;
        while i < self.paths.len()
            invariant
                i <= self.paths.len(),
                paths.deep_view() == self@.paths.take(i as int),
            decreases self.paths.len() - i,
        {
            let ghost before = paths.deep_view();
            paths.push(self.paths[i].clone());
            assert(paths.deep_view() =~= before.push(self.paths[i as int]@));
            i = i + 1;
        }
        assert(self@.paths.take(self.paths.len() as int) =~= self@.paths);
        paths
    }

    /// What the tab key puts in place of the input.
    pub fn completion(&self, highlighted: Option<String>) -> (replacement: Option<String>)
        ensures
            replacement.deep_view() == completion_of(self@, highlighted.deep_view()),
    {
        match highlighted {
            Some(suggestion) => Some(suggestion),
            None => {
                if self.lcp.as_str().unicode_len() == 0 {
                    None
                } else {
                    Some(self.lcp.clone())
                }
            },
        }
    }
}

} // verus!
