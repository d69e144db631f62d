//! Paths of the file system, as far as a record's place needs them.

use vstd::prelude::*;
use std::path::Path;
use std::path::PathBuf;

verus! {

/// `std::path::Path`, carried through as it is.
#[verifier::external_type_specification]
#[verifier::external_body]
pub struct ExPath(Path);

/// `std::path::PathBuf`, carried through as it is.
#[verifier::external_type_specification]
#[verifier::external_body]
pub struct ExPathBuf(PathBuf);

/// The bytes that a borrowed path is made of.
pub uninterp spec fn path_bytes(path: &Path) -> Seq<u8>;

/// The bytes that an owned path is made of.
pub uninterp spec fn pathbuf_bytes(path: &PathBuf) -> Seq<u8>;

/// The bytes of the path that `Path::join` makes of a path and one more
/// component.
pub uninterp spec fn joined(base: Seq<u8>, part: Seq<char>) -> Seq<u8>;

/// `Path::join`: the path that adjoins `part` to `base`. What it is made of
/// depends on what the two are made of, and on nothing else.
#[verifier::external_body]
pub(crate) fn join(base: &Path, part: &str) -> (path: PathBuf)
    ensures
        pathbuf_bytes(&path) == joined(path_bytes(base), part@),
{
    base.join(part)
}

/// `PathBuf::as_path`: the same path, borrowed.
#[verifier::external_body]
pub(crate) fn as_path(path: &PathBuf) -> (borrowed: &Path)
    ensures
        path_bytes(borrowed) == pathbuf_bytes(path),
{
    path.as_path()
}

/// `Path::is_dir`: whether the file system holds a directory at `path` right
/// now. The answer is the file system's, so nothing is promised of it.
#[verifier::external_body]
pub(crate) fn is_dir(path: &Path) -> (found: bool)
{
    path.is_dir()
}

} // verus!
