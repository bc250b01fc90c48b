//! The laws the gateway obeys, proved once and for all over the model in
//! [`crate::model`]. Each executable operation is bound to that model by
//! its own contract, so these statements carry over to every run of the
//! gateway.

use vstd::prelude::*;
use crate::errors::ErrorKind;
use crate::model::{
    FsView, create_dir_blocked, create_dir_outcome, create_dir_result, created_dir, path_ok,
    read_outcome, write_outcome, write_parent_ok,
};

verus! {

/// Creating a directory is idempotent: once a creation of `p` has
/// succeeded, creating `p` again succeeds as well and leaves the state
/// exactly as the first call left it, and `p` exists as a directory after
/// either call.
pub proof fn lemma_create_dir_idempotent(fs: FsView, p: Seq<char>)
    requires
        create_dir_outcome(fs, p) is Ok,
    ensures
        ({
            let fs1 = create_dir_outcome(fs, p)->Ok_0;
            &&& create_dir_outcome(fs1, p) is Ok
            &&& create_dir_outcome(fs1, p)->Ok_0 == fs1
            &&& fs1.dom().contains(p) && fs1[p] is Dir
        }),
{
    let fs1 = create_dir_result(fs, p);
    assert(!create_dir_blocked(fs1, p)) by {
        if create_dir_blocked(fs1, p) {
            let k = choose|k: Seq<char>|
                created_dir(p, k) && fs1.dom().contains(k) && fs1[k] is File;
            assert(fs1[k] is Dir);
        }
    }
    assert(create_dir_result(fs1, p) =~= fs1);
}

/// A successful creation of `p` brings `p` itself and every ancestor
/// directory named inside it into existence, all as directories.
pub proof fn lemma_create_dir_creates_ancestors(fs: FsView, p: Seq<char>)
    requires
        create_dir_outcome(fs, p) is Ok,
    ensures
        forall|k: Seq<char>| #[trigger]
            created_dir(p, k) ==> create_dir_outcome(fs, p)->Ok_0.dom().contains(k)
                && create_dir_outcome(fs, p)->Ok_0[k] is Dir,
{
}

/// Writing then reading round-trips: after a successful write of text `t`
/// to `p`, reading `p` succeeds and returns exactly `t`.
pub proof fn lemma_write_read_round_trip(fs: FsView, p: Seq<char>, t: Seq<char>)
    requires
        write_outcome(fs, p, t) is Ok,
    ensures
        read_outcome(write_outcome(fs, p, t)->Ok_0, p) == Ok::<Seq<char>, ErrorKind>(t),
{
}

/// Reading a path that does not exist fails with `NotFound`.
pub proof fn lemma_read_missing_not_found(fs: FsView, p: Seq<char>)
    requires
        path_ok(p),
        !fs.dom().contains(p),
    ensures
        read_outcome(fs, p) == Err::<Seq<char>, ErrorKind>(ErrorKind::NotFound),
{
}

/// Writing to a path whose parent directory does not exist fails with
/// `IOError`: unlike directory creation, a write creates no ancestors.
pub proof fn lemma_write_missing_parent_io_error(fs: FsView, p: Seq<char>, t: Seq<char>)
    requires
        path_ok(p),
        !write_parent_ok(fs, p),
    ensures
        write_outcome(fs, p, t) == Err::<FsView, ErrorKind>(ErrorKind::IOError),
{
}

/// An empty path is rejected with `InvalidArgument` by every operation,
/// before any filesystem state is consulted; that the executable gateway
/// also leaves its state untouched is part of each operation's contract.
pub proof fn lemma_empty_path_invalid_argument(fs: FsView, p: Seq<char>, t: Seq<char>)
    requires
        p.len() == 0,
    ensures
        create_dir_outcome(fs, p) == Err::<FsView, ErrorKind>(ErrorKind::InvalidArgument),
        read_outcome(fs, p) == Err::<Seq<char>, ErrorKind>(ErrorKind::InvalidArgument),
        write_outcome(fs, p, t) == Err::<FsView, ErrorKind>(ErrorKind::InvalidArgument),
{
}

} // verus!
