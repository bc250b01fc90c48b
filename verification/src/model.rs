//! The mathematical model of the filesystem and of the three gateway
//! operations.
//!
//! A filesystem state is a finite map from paths (sequences of characters)
//! to nodes: a directory, or a text file with its contents. Paths are kept
//! exactly as the caller spelled them; the separator is `/`. Each operation
//! is a total function from a state and a request to an outcome: either the
//! new state (with, for a read, the contents found) or the kind of error
//! reported. The executable gateway is proved to agree with these functions.

use vstd::prelude::*;
use crate::errors::ErrorKind;

verus! {

/// A node of the modelled filesystem: a directory or a text file.
pub enum NodeView {
    Dir,
    File(Seq<char>),
}

/// A filesystem state: which paths exist, and what each one is.
pub type FsView = Map<Seq<char>, NodeView>;

/// The one validity demand on a request: the path must be non-empty.
pub open spec fn path_ok(p: Seq<char>) -> bool {
    p.len() > 0
}

/// `k` is a proper, non-empty prefix of `p` that ends right before a `/`:
/// one of the ancestor directories named by `p`.
pub open spec fn slash_prefix(p: Seq<char>, k: Seq<char>) -> bool {
    &&& 0 < k.len() < p.len()
    &&& k == p.subrange(0, k.len() as int)
    &&& p[k.len() as int] == '/'
}

/// The directories that creating `p` brings into existence: `p` itself and
/// every ancestor named inside it.
pub open spec fn created_dir(p: Seq<char>, k: Seq<char>) -> bool {
    k == p || slash_prefix(p, k)
}

/// Directory creation is blocked when some component it must create or
/// reuse already exists as a file.
pub open spec fn create_dir_blocked(fs: FsView, p: Seq<char>) -> bool {
    exists|k: Seq<char>| created_dir(p, k) && fs.dom().contains(k) && fs[k] is File
}

/// The state after successfully creating directory `p`: `p` and all its
/// named ancestors are directories, everything else is untouched.
pub open spec fn create_dir_result(fs: FsView, p: Seq<char>) -> FsView {
    Map::new(
        |k: Seq<char>| fs.dom().contains(k) || created_dir(p, k),
        |k: Seq<char>| if created_dir(p, k) { NodeView::Dir } else { fs[k] },
    )
}

/// The outcome of creating directory `p`, with all missing ancestors, in
/// state `fs`. Idempotent: components that already exist as directories are
/// accepted silently.
pub open spec fn create_dir_outcome(fs: FsView, p: Seq<char>) -> Result<FsView, ErrorKind> {
    if !path_ok(p) {
        Err(ErrorKind::InvalidArgument)
    } else if create_dir_blocked(fs, p) {
        Err(ErrorKind::IOError)
    } else {
        Ok(create_dir_result(fs, p))
    }
}

/// The outcome of reading the text file at `p` in state `fs`.
pub open spec fn read_outcome(fs: FsView, p: Seq<char>) -> Result<Seq<char>, ErrorKind> {
    if !path_ok(p) {
        Err(ErrorKind::InvalidArgument)
    } else if !fs.dom().contains(p) {
        Err(ErrorKind::NotFound)
    } else {
        match fs[p] {
            NodeView::Dir => Err(ErrorKind::IOError),
            NodeView::File(contents) => Ok(contents),
        }
    }
}

/// The position of the last `/` in `p`, or `-1` when `p` has none.
pub open spec fn last_slash(p: Seq<char>) -> int
    decreases p.len(),
{
    if p.len() == 0 {
        -1
    } else if p[p.len() - 1] == '/' {
        p.len() - 1
    } else {
        last_slash(p.drop_last())
    }
}

/// The directory a write to `p` requires to exist already. Writing creates
/// no ancestors: the parent named inside `p` must be a directory. A path
/// with no `/`, or whose only parent is the root (a leading `/`), needs
/// nothing from the modelled state.
pub open spec fn write_parent_ok(fs: FsView, p: Seq<char>) -> bool {
    last_slash(p) <= 0 || {
        let parent = p.subrange(0, last_slash(p));
        fs.dom().contains(parent) && fs[parent] is Dir
    }
}

/// A write is blocked when the parent directory is missing or when the
/// path itself already exists as a directory.
pub open spec fn write_blocked(fs: FsView, p: Seq<char>) -> bool {
    !write_parent_ok(fs, p) || (fs.dom().contains(p) && fs[p] is Dir)
}

/// The outcome of writing text `t` to the file at `p` in state `fs`: the
/// file is created or its previous contents replaced in full.
pub open spec fn write_outcome(fs: FsView, p: Seq<char>, t: Seq<char>) -> Result<
    FsView,
    ErrorKind,
> {
    if !path_ok(p) {
        Err(ErrorKind::InvalidArgument)
    } else if write_blocked(fs, p) {
        Err(ErrorKind::IOError)
    } else {
        Ok(fs.insert(p, NodeView::File(t)))
    }
}

} // verus!
