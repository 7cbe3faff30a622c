use vstd::prelude::*;

use crate::stats::Stats;

verus! {

/// Declares std's `Path`, opaque, so that arena signatures can name it.
#[verifier::external_type_specification]
#[verifier::external_body]
pub struct ExPath(std::path::Path);

/// Declares std's `io::Error`, opaque, so that arena signatures can name it.
#[verifier::external_type_specification]
#[verifier::external_body]
pub struct ExIoError(std::io::Error);

/// What every arena offers: loading whole files and symlink targets into
/// memory that stays put for as long as the arena lives, and statistics.
/// Implementations must be callable from many threads at once.
pub trait Arena: Sync {
    /// Loads the whole file at `path` and returns its bytes; the slice is
    /// valid for as long as the arena is alive.
    fn load_file(&self, path: &std::path::Path) -> Result<&[u8], std::io::Error>;

    /// Loads the text of the symbolic link at `path` (not the file it points
    /// to); the slice is valid for as long as the arena is alive.
    fn load_symlink_target(&self, path: &std::path::Path) -> Result<&[u8], std::io::Error>;

    /// The number of resources loaded so far and their total size.
    fn stats(&self) -> Stats;
}

} // verus!
