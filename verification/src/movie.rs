//! Film scopes: the largest video of a directory is the film, and what
//! else the directory holds belongs to it.

use vstd::prelude::*;
use crate::candidate::MediaKind;
use crate::config::Config;
use crate::entry::Entry;
use crate::guarantees::well_formed;
use crate::scope::{opened, Scope};

verus! {

/// Opens the film scope of a directory with the given files and folders,
/// each in its order of treatment. The scope starts with its files: the
/// first video among them is searched for as the film.
pub fn handle_movie_files_and_folders(
    directory: String,
    files: Vec<Entry>,
    folders: Vec<Entry>,
    cfg: &Config,
) -> (scope: Scope)
    ensures
        scope@ == opened(
            MediaKind::Movie,
            cfg@,
            directory@,
            Seq::empty(),
            files.deep_view(),
            folders.deep_view(),
        ),
        well_formed(scope@),
{
    let name = "";
    proof {
        reveal_strlit("");
    }
    assert(name@ =~= Seq::<char>::empty());
    Scope::open(MediaKind::Movie, cfg, directory, name, files, folders)
}

} // verus!
