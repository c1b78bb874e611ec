//! Series scopes: the name of the directory names the series, and the
//! files below it are its episodes.

use vstd::prelude::*;
use crate::candidate::MediaKind;
use crate::config::Config;
use crate::entry::Entry;
use crate::guarantees::well_formed;
use crate::scope::{opened, Scope};

verus! {

/// Opens the series scope of a directory with the given files and
/// folders, each in its order of treatment. `name` is the last component
/// of the path `directory`; the scope starts with the search for it.
pub fn handle_show_files_and_folders(
    directory: String,
    name: &str,
    files: Vec<Entry>,
    folders: Vec<Entry>,
    cfg: &Config,
) -> (scope: Scope)
    ensures
        scope@ == opened(
            MediaKind::Show,
            cfg@,
            directory@,
            name@,
            files.deep_view(),
            folders.deep_view(),
        ),
        well_formed(scope@),
{
    Scope::open(MediaKind::Show, cfg, directory, name, files, folders)
}

} // verus!
