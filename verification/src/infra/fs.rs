//! The path that a document is written to.
use vstd::prelude::*;

verus! {

/// Why a path cannot take a document.
#[derive(Debug, Clone, Copy, PartialEq, Eq, Structural)]
pub enum PathError {
    /// The path names a directory.
    IsDirectory,
}

/// Settles the path that the document is written to: `p` itself, unless a
/// directory stands there. `is_dir` is what the file system answered when
/// asked whether `p` names a directory.
pub fn resolve_out_path(p: &str, is_dir: bool) -> (resolved: Result<String, PathError>)
    ensures
        is_dir ==> resolved == Err::<String, PathError>(PathError::IsDirectory),
        !is_dir ==> resolved is Ok && resolved->Ok_0@ == p@,
{
    if is_dir {
        Err(PathError::IsDirectory)
    } else {
        Ok(p.to_owned())
    }
}

} // verus!
