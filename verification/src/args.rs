//! The settings of one packing run.

use std::path::PathBuf;
use vstd::prelude::*;

verus! {

/// `std::path::PathBuf`, carried through as an opaque value: nothing is
/// known of what a path holds.
#[verifier::external_type_specification]
#[verifier::external_body]
pub struct ExPathBuf(PathBuf);

/// How the rows of the source tree are numbered.
#[derive(Clone, Copy, Debug, PartialEq, Eq, Structural)]
pub enum Scheme {
    /// Row 0 is the northernmost row.
    XYZ,
    /// Row 0 is the southernmost row, as the archive stores it.
    TMS,
}

/// What a run is asked to do.
#[derive(Debug)]
pub struct Args {
    /// Input directory
    pub source_dir: PathBuf,
    /// Output archive file
    pub target_file: PathBuf,
    /// Display name of the archive
    pub name: Option<String>,
    /// Tile scheme in the directory
    pub scheme: Scheme,
    /// Whether each stored tile is reported
    pub verbose: bool,
}

/// The stem of a path: its final component without the extension, where the
/// path has a final component; as `Path::file_stem` of std finds it, made
/// text lossily.
pub uninterp spec fn stem_of(path: PathBuf) -> Option<Seq<char>>;

/// The final component of a path without its extension, where it has one.
///
/// Calls `Path::file_stem` of std and makes the stem a `String` with
/// `OsStr::to_string_lossy`. The result is a function of the path alone and
/// is only named here: nothing is said of what it is on a given path.
#[verifier::external_body]
pub(crate) fn file_stem(path: &PathBuf) -> (stem: Option<String>)
    ensures
        stem.deep_view() == stem_of(*path),
{
    match path.as_path().file_stem() {
        Some(stem) => Some(stem.to_string_lossy().to_string()),
        None => None,
    }
}

} // verus!
