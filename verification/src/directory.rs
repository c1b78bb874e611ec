//! Opening the scope of a directory from its listing.

use vstd::prelude::*;
use crate::candidate::MediaKind;
use crate::config::{Config, ConfigView};
use crate::entry::{files_and_folders, ordered_of_kind, Entry, EntryKind, EntryView};
use crate::guarantees::well_formed;
use crate::movie::handle_movie_files_and_folders;
use crate::scope::{opened, Scope, ScopeView};
use crate::show::handle_show_files_and_folders;

verus! {

/// The scope of a directory as it is opened from its listing: its files
/// and its folders are taken apart and put largest first, so that the
/// film, which tends to be the largest file, comes before its extras. The
/// name of the directory matters to a series scope alone.
pub open spec fn searched(
    directory: Seq<char>,
    name: Seq<char>,
    entries: Seq<EntryView>,
    cfg: ConfigView,
    shows: bool,
) -> ScopeView {
    opened(
        if shows {
            MediaKind::Show
        } else {
            MediaKind::Movie
        },
        cfg,
        directory,
        if shows {
            name
        } else {
            Seq::empty()
        },
        ordered_of_kind(entries, EntryKind::File),
        ordered_of_kind(entries, EntryKind::Directory),
    )
}

/// Opens the scope of a directory: `directory` is its path, `name` the
/// last component of that path and `entries` what it holds, in the order
/// of the listing. The scope is one of series if `shows` is set, else one
/// of films.
pub fn search_path(
    directory: String,
    name: &str,
    entries: Vec<Entry>,
    cfg: &Config,
    shows: bool,
) -> (scope: Scope)
    ensures
        scope@ == searched(directory@, name@, entries.deep_view(), cfg@, shows),
        well_formed(scope@),
{
    let (files, folders) = files_and_folders(entries);
    if shows {
        handle_show_files_and_folders(directory, name, files, folders, cfg)
    } else {
        handle_movie_files_and_folders(directory, files, folders, cfg)
    }
}

} // verus!
