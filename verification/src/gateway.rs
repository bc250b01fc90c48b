//! The executable gateway: an in-memory filesystem implementing the three
//! operations, each proved to agree with the model in [`crate::model`].

use vstd::prelude::*;
use crate::errors::{ErrorKind, GatewayError};
use crate::model::{
    FsView, NodeView, create_dir_blocked, create_dir_outcome, create_dir_result, created_dir,
    last_slash, path_ok, read_outcome, slash_prefix, write_outcome, write_parent_ok,
};

verus! {

/// A node of the in-memory filesystem: a directory or a text file.
enum Node {
    Dir,
    File(String),
}

/// The node as the model sees it.
spec fn node_view(n: Node) -> NodeView {
    match n {
        Node::Dir => NodeView::Dir,
        Node::File(s) => NodeView::File(s@),
    }
}

/// An in-memory filesystem: a flat association of paths to nodes. Paths
/// are kept exactly as callers spell them.
pub struct FileSystem {
    entries: Vec<(String, Node)>,
}

/// The map an entry list denotes; later entries would shadow earlier ones,
/// but the well-formedness invariant keeps keys unique.
spec fn entries_map(s: Seq<(String, Node)>) -> FsView
    decreases s.len(),
{
    if s.len() == 0 {
        Map::empty()
    } else {
        entries_map(s.drop_last()).insert(s.last().0@, node_view(s.last().1))
    }
}

spec fn unique_keys(s: Seq<(String, Node)>) -> bool {
    forall|i: int, j: int| 0 <= i < j < s.len() ==> s[i].0@ != s[j].0@
}

impl View for FileSystem {
    type V = FsView;

    closed spec fn view(&self) -> FsView {
        entries_map(self.entries@)
    }
}

/// How the entry list and the map it denotes correspond: a key is in the
/// map exactly when some entry carries it, and (with unique keys) the map
/// takes that entry's node for it.
proof fn lemma_entries_map_props(s: Seq<(String, Node)>, k: Seq<char>)
    ensures
        entries_map(s).dom().contains(k) <==> exists|i: int|
            0 <= i < s.len() && #[trigger] s[i].0@ == k,
        unique_keys(s) ==> forall|i: int|
            0 <= i < s.len() && #[trigger] s[i].0@ == k ==> entries_map(s)[k] == node_view(s[i].1),
    decreases s.len(),
{
    if s.len() > 0 {
        lemma_entries_map_props(s.drop_last(), k);
        assert(forall|i: int| 0 <= i < s.len() - 1 ==> s.drop_last()[i] == s[i]);
        if entries_map(s).dom().contains(k) && s.last().0@ != k {
            let i = choose|i: int| 0 <= i < s.len() - 1 && #[trigger] s.drop_last()[i].0@ == k;
            assert(s[i].0@ == k);
        }
        if exists|i: int| 0 <= i < s.len() && #[trigger] s[i].0@ == k {
            let i = choose|i: int| 0 <= i < s.len() && #[trigger] s[i].0@ == k;
            if i < s.len() - 1 {
                assert(s.drop_last()[i].0@ == k);
            }
        }
    }
}

impl FileSystem {
    /// Keys are unique, so the map view loses no entry.
    pub closed spec fn wf(&self) -> bool {
        unique_keys(self.entries@)
    }

    /// An empty filesystem: nothing exists yet.
    pub fn new() -> (fs: FileSystem)
        ensures
            fs.wf(),
            fs@ == Map::<Seq<char>, NodeView>::empty(),
    {
        FileSystem { entries: Vec::new() }
    }

    /// The index of the entry carrying `key`, if any.
    fn find(&self, key: &String) -> (r: Option<usize>)
        requires
            self.wf(),
        ensures
            match r {
                Some(i) => {
                    &&& i < self.entries@.len()
                    &&& self.entries@[i as int].0@ == key@
                    &&& self@.dom().contains(key@)
                    &&& self@[key@] == node_view(self.entries@[i as int].1)
                },
                None => !self@.dom().contains(key@),
            },
    {
        let n = self.entries.len();
        let mut i: usize = 0;
        while i < n
            invariant
                self.wf(),
                n == self.entries@.len(),
                i <= n,
                forall|j: int| 0 <= j < i ==> self.entries@[j].0@ != key@,
            decreases n - i,
        {
            if self.entries[i].0 == *key {
                proof {
                    lemma_entries_map_props(self.entries@, key@);
                }
                return Some(i);
            }
            i += 1;
        }
        proof {
            lemma_entries_map_props(self.entries@, key@);
        }
        None
    }

    /// Adds an entry for a key that is not present yet.
    fn insert_node(&mut self, key: String, node: Node)
        requires
            old(self).wf(),
            !old(self)@.dom().contains(key@),
        ensures
            final(self).wf(),
            final(self)@ == old(self)@.insert(key@, node_view(node)),
    {
        proof {
            lemma_entries_map_props(self.entries@, key@);
        }
        self.entries.push((key, node));
        proof {
            assert(self.entries@.drop_last() =~= old(self).entries@);
            assert(self@ == old(self)@.insert(key@, node_view(node)));
        }
    }

    /// Reads the text file at `path`, returning its full contents.
    ///
    /// Fails with `InvalidArgument` on an empty path, `NotFound` when the
    /// path does not exist, and `IOError` when it names a directory.
    pub fn read_file(&self, path: &String) -> (r: Result<String, GatewayError>)
        requires
            self.wf(),
        ensures
            match read_outcome(self@, path@) {
                Ok(t) => r matches Ok(s) && s@ == t,
                Err(k) => r matches Err(e) && e.kind == k && (if k == ErrorKind::InvalidArgument {
                    e.message@ == "path must not be empty"@
                } else if k == ErrorKind::NotFound {
                    e.message@ == "no file exists at the path"@
                } else {
                    e.message@ == "the path is a directory, not a file"@
                }),
            },
    {
        if path.as_str().unicode_len() == 0 {
            return Err(invalid_argument_error());
        }
        match self.find(path) {
            None => Err(GatewayError {
                kind: ErrorKind::NotFound,
                message: "no file exists at the path".to_owned(),
            }),
            Some(i) => match &self.entries[i].1 {
                Node::File(contents) => Ok(contents.clone()),
                Node::Dir => Err(GatewayError {
                    kind: ErrorKind::IOError,
                    message: "the path is a directory, not a file".to_owned(),
                }),
            },
        }
    }
}

/// Removing an entry removes exactly its key from the denoted map.
proof fn lemma_entries_map_remove(s: Seq<(String, Node)>, i: int)
    requires
        unique_keys(s),
        0 <= i < s.len(),
    ensures
        unique_keys(s.remove(i)),
        entries_map(s.remove(i)) =~= entries_map(s).remove(s[i].0@),
    decreases s.len(),
{
    let s2 = s.remove(i);
    let k = s[i].0@;
    assert(forall|j: int| 0 <= j < i ==> s2[j] == s[j]);
    assert(forall|j: int| i <= j < s2.len() ==> s2[j] == s[j + 1]);
    assert(forall|j: int| 0 <= j < s.len() - 1 ==> s.drop_last()[j] == s[j]);
    if i == s.len() - 1 {
        assert(s2 =~= s.drop_last());
        lemma_entries_map_props(s.drop_last(), k);
        assert(!entries_map(s.drop_last()).dom().contains(k));
        assert(entries_map(s.remove(i)) =~= entries_map(s).remove(k));
    } else {
        assert(s2.drop_last() =~= s.drop_last().remove(i));
        assert(s2.last() == s.last());
        lemma_entries_map_remove(s.drop_last(), i);
        assert(entries_map(s2) == entries_map(s2.drop_last()).insert(
            s2.last().0@,
            node_view(s2.last().1),
        ));
        assert(s.last().0@ != k);
        assert(entries_map(s.remove(i)) =~= entries_map(s).remove(k));
    }
}

/// The position just before which the final `/` of `path` stands, if it
/// has one.
fn last_slash_index(path: &str) -> (r: Option<usize>)
    ensures
        match r {
            Some(i) => last_slash(path@) == i as int && i < path@.len(),
            None => last_slash(path@) == -1,
        },
{
    let n = path.unicode_len();
    let mut i: usize = n;
    proof {
        assert(path@.subrange(0, n as int) =~= path@);
    }
    while i > 0
        invariant
            i <= n,
            n == path@.len(),
            last_slash(path@) == last_slash(path@.subrange(0, i as int)),
        decreases i,
    {
        let c = path.get_char(i - 1);
        if c == '/' {
            return Some(i - 1);
        }
        proof {
            assert(path@.subrange(0, i as int).drop_last() =~= path@.subrange(0, i as int - 1));
        }
        i -= 1;
    }
    None
}

impl FileSystem {
    /// Writes text `contents` to the file at `path`, creating the file or
    /// replacing its previous contents in full.
    ///
    /// Fails with `InvalidArgument` on an empty path, and with `IOError`
    /// when the parent directory named inside `path` does not exist (no
    /// ancestor is created) or when `path` names a directory.
    pub fn write_file(&mut self, path: &String, contents: &String) -> (r: Result<
        (),
        GatewayError,
    >)
        requires
            old(self).wf(),
        ensures
            final(self).wf(),
            match write_outcome(old(self)@, path@, contents@) {
                Ok(m) => r is Ok && final(self)@ == m,
                Err(k) => r matches Err(e) && e.kind == k && final(self)@ == old(self)@ && (if k
                    == ErrorKind::InvalidArgument {
                    e.message@ == "path must not be empty"@
                } else if !write_parent_ok(old(self)@, path@) {
                    e.message@ == "the parent directory does not exist"@
                } else {
                    e.message@ == "the path is a directory, not a file"@
                }),
            },
    {
        let n = path.as_str().unicode_len();
        if n == 0 {
            return Err(invalid_argument_error());
        }
        let parent_missing: bool = match last_slash_index(path.as_str()) {
            Some(j) => {
                if j > 0 {
                    let parent = path.as_str().substring_char(0, j).to_owned();
                    match self.find(&parent) {
                        Some(idx) => matches!(self.entries[idx].1, Node::File(_)),
                        None => true,
                    }
                } else {
                    false
                }
            },
            None => false,
        };
        if parent_missing {
            return Err(GatewayError {
                kind: ErrorKind::IOError,
                message: "the parent directory does not exist".to_owned(),
            });
        }
        match self.find(path) {
            Some(i) => {
                if matches!(self.entries[i].1, Node::Dir) {
                    return Err(GatewayError {
                        kind: ErrorKind::IOError,
                        message: "the path is a directory, not a file".to_owned(),
                    });
                }
                proof {
                    lemma_entries_map_remove(self.entries@, i as int);
                }
                let _replaced = self.entries.remove(i);
                self.insert_node(path.clone(), Node::File(contents.clone()));
                proof {
                    assert(self@ =~= old(self)@.insert(path@, NodeView::File(contents@)));
                }
                Ok(())
            },
            None => {
                self.insert_node(path.clone(), Node::File(contents.clone()));
                Ok(())
            },
        }
    }
}

/// The state midway through creating directory `p`: the ancestors whose
/// closing `/` stands before position `upto` have been created, nothing
/// else has changed.
spec fn create_dir_partial(fs: FsView, p: Seq<char>, upto: int) -> FsView {
    Map::new(
        |k: Seq<char>| fs.dom().contains(k) || (slash_prefix(p, k) && k.len() < upto),
        |k: Seq<char>| if slash_prefix(p, k) && k.len() < upto {
            NodeView::Dir
        } else {
            fs[k]
        },
    )
}

impl FileSystem {
    /// Creates the directory at `path` together with every missing
    /// ancestor named inside it. Idempotent: components that already exist
    /// as directories are accepted silently.
    ///
    /// Fails with `InvalidArgument` on an empty path, and with `IOError`
    /// when some component already exists as a file; in that case nothing
    /// is changed.
    pub fn create_dir(&mut self, path: &String) -> (r: Result<(), GatewayError>)
        requires
            old(self).wf(),
        ensures
            final(self).wf(),
            match create_dir_outcome(old(self)@, path@) {
                Ok(m) => r is Ok && final(self)@ == m,
                Err(k) => r matches Err(e) && e.kind == k && final(self)@ == old(self)@ && (if k
                    == ErrorKind::InvalidArgument {
                    e.message@ == "path must not be empty"@
                } else {
                    e.message@ == "a path component exists and is not a directory"@
                }),
            },
    {
        let n = path.as_str().unicode_len();
        if n == 0 {
            return Err(invalid_argument_error());
        }
        // First pass: nothing is changed until every component that the
        // creation would reuse or create is known not to be a file.
        let mut i: usize = 0;
        while i < n
            invariant
                self == old(self),
                self.wf(),
                n == path@.len(),
                forall|t: int|
                    0 < t < i && path@[t] == '/' ==> !(self@.dom().contains(
                        #[trigger] path@.subrange(0, t),
                    ) && self@[path@.subrange(0, t)] is File),
            decreases n - i,
        {
            let c = path.as_str().get_char(i);
            if c == '/' && i > 0 {
                let pre = path.as_str().substring_char(0, i).to_owned();
                match self.find(&pre) {
                    Some(j) => {
                        if matches!(self.entries[j].1, Node::File(_)) {
                            proof {
                                assert(slash_prefix(path@, pre@));
                                assert(created_dir(path@, pre@) && self@.dom().contains(pre@)
                                    && self@[pre@] is File);
                                assert(create_dir_blocked(self@, path@));
                            }
                            return Err(component_error());
                        }
                    },
                    None => {},
                }
            }
            i += 1;
        }
        match self.find(path) {
            Some(j) => {
                if matches!(self.entries[j].1, Node::File(_)) {
                    proof {
                        assert(created_dir(path@, path@));
                        assert(create_dir_blocked(self@, path@));
                    }
                    return Err(component_error());
                }
            },
            None => {},
        }
        proof {
            assert(!create_dir_blocked(old(self)@, path@)) by {
                if create_dir_blocked(old(self)@, path@) {
                    let k = choose|k: Seq<char>|
                        created_dir(path@, k) && old(self)@.dom().contains(k) && old(self)@[k]
                            is File;
                    if k != path@ {
                        let t = k.len() as int;
                        assert(path@.subrange(0, t) == k);
                    }
                    assert(false);
                }
            }
            assert(self@ =~= create_dir_partial(old(self)@, path@, 0));
        }
        // Second pass: create what is missing, ancestors first.
        let mut i: usize = 0;
        while i < n
            invariant
                self.wf(),
                n == path@.len(),
                path_ok(path@),
                !create_dir_blocked(old(self)@, path@),
                self@ == create_dir_partial(old(self)@, path@, i as int),
            decreases n - i,
        {
            let c = path.as_str().get_char(i);
            if c == '/' && i > 0 {
                let pre = path.as_str().substring_char(0, i).to_owned();
                proof {
                    assert(slash_prefix(path@, pre@));
                }
                match self.find(&pre) {
                    None => {
                        self.insert_node(pre, Node::Dir);
                        proof {
                            assert(self@ =~= create_dir_partial(old(self)@, path@, i as int + 1));
                        }
                    },
                    Some(_j) => {
                        proof {
                            assert(self@.dom().contains(pre@));
                            assert(pre@.len() == i as int);
                            assert(old(self)@.dom().contains(pre@));
                            assert(!(old(self)@[pre@] is File)) by {
                                if old(self)@[pre@] is File {
                                    assert(created_dir(path@, pre@) && old(self)@.dom().contains(
                                        pre@,
                                    ) && old(self)@[pre@] is File);
                                    assert(create_dir_blocked(old(self)@, path@));
                                }
                            }
                            assert(old(self)@[pre@] is Dir);
                            assert(self@ =~= create_dir_partial(old(self)@, path@, i as int + 1));
                        }
                    },
                }
            } else {
                proof {
                    assert(create_dir_partial(old(self)@, path@, i as int)
                        =~= create_dir_partial(old(self)@, path@, i as int + 1));
                }
            }
            i += 1;
        }
        match self.find(path) {
            None => {
                self.insert_node(path.clone(), Node::Dir);
                proof {
                    assert(self@ =~= create_dir_result(old(self)@, path@));
                }
            },
            Some(_j) => {
                proof {
                    assert(old(self)@.dom().contains(path@));
                    assert(old(self)@[path@] is Dir);
                    assert(self@ =~= create_dir_result(old(self)@, path@));
                }
            },
        }
        Ok(())
    }
}

/// The validation every operation applies before any filesystem state is
/// consulted: an empty path is rejected with `InvalidArgument`. A host
/// that binds the gateway to a real filesystem calls this before it
/// issues the operating-system call.
pub fn validate_path(path: &String) -> (r: Option<GatewayError>)
    ensures
        match r {
            Some(e) => {
                &&& !path_ok(path@)
                &&& e.kind == ErrorKind::InvalidArgument
                &&& e.message@ == "path must not be empty"@
            },
            None => path_ok(path@),
        },
{
    if path.as_str().unicode_len() == 0 {
        Some(invalid_argument_error())
    } else {
        None
    }
}

/// The failure directory creation reports when a component is a file.
fn component_error() -> (e: GatewayError)
    ensures
        e.kind == ErrorKind::IOError,
        e.message@ == "a path component exists and is not a directory"@,
{
    GatewayError {
        kind: ErrorKind::IOError,
        message: "a path component exists and is not a directory".to_owned(),
    }
}

/// The failure every operation reports for an empty path, before any
/// filesystem state is consulted.
fn invalid_argument_error() -> (e: GatewayError)
    ensures
        e.kind == ErrorKind::InvalidArgument,
        e.message@ == "path must not be empty"@,
{
    GatewayError { kind: ErrorKind::InvalidArgument, message: "path must not be empty".to_owned() }
}

} // verus!
