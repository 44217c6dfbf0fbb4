//! Files: payloads stored under opaque path strings.

use crate::storage::NotFound;
use crate::table::Table;
use vstd::prelude::*;

verus! {

/// What a file store holds: each stored path with its payload.
pub type Files = Map<Seq<char>, Seq<char>>;

/// The files after `create`: `path` holds `data`, whatever it held before.
pub open spec fn created(files: Files, path: Seq<char>, data: Seq<char>) -> Files {
    files.insert(path, data)
}

/// The files after `write`: the payload of `path` is replaced if the path is
/// stored, and nothing changes if it is not.
pub open spec fn written(files: Files, path: Seq<char>, data: Seq<char>) -> Files {
    if files.contains_key(path) {
        files.insert(path, data)
    } else {
        files
    }
}

/// The files after `delete`: `path` is gone.
pub open spec fn deleted(files: Files, path: Seq<char>) -> Files {
    files.remove(path)
}

/// What `read` finds under `path`.
pub open spec fn stored(files: Files, path: Seq<char>) -> Option<Seq<char>> {
    if files.contains_key(path) {
        Some(files[path])
    } else {
        None
    }
}

/// Whether `paths` lists every stored path exactly once.
pub open spec fn lists(paths: Seq<Seq<char>>, files: Files) -> bool {
    &&& paths.no_duplicates()
    &&& paths.to_set() == files.dom()
    &&& paths.len() == files.len()
}

/// A change that a file store can be asked for.
pub enum FileOp {
    Create { path: Seq<char>, data: Seq<char> },
    Write { path: Seq<char>, data: Seq<char> },
    Delete { path: Seq<char> },
}

/// The files after one change.
pub open spec fn applied(files: Files, op: FileOp) -> Files {
    match op {
        FileOp::Create { path, data } => created(files, path, data),
        FileOp::Write { path, data } => written(files, path, data),
        FileOp::Delete { path } => deleted(files, path),
    }
}

/// The files after a sequence of changes, the first one first.
pub open spec fn replayed(files: Files, ops: Seq<FileOp>) -> Files
    decreases ops.len(),
{
    if ops.len() == 0 {
        files
    } else {
        applied(replayed(files, ops.drop_last()), ops.last())
    }
}

/// Whether `op` is a create of a path that `files` does not hold.
pub open spec fn adds(files: Files, op: FileOp) -> bool {
    op matches FileOp::Create { path, .. } && !files.contains_key(path)
}

/// Whether `op` is a delete of a path that `files` holds.
pub open spec fn removes(files: Files, op: FileOp) -> bool {
    op matches FileOp::Delete { path } && files.contains_key(path)
}

/// How many of `ops`, run in turn from `files`, create a path that is not
/// stored when they run.
pub open spec fn additions(files: Files, ops: Seq<FileOp>) -> nat
    decreases ops.len(),
{
    if ops.len() == 0 {
        0
    } else {
        let earlier = additions(files, ops.drop_last());
        if adds(replayed(files, ops.drop_last()), ops.last()) {
            earlier + 1
        } else {
            earlier
        }
    }
}

/// How many of `ops`, run in turn from `files`, delete a path that is
/// stored when they run.
pub open spec fn removals(files: Files, ops: Seq<FileOp>) -> nat
    decreases ops.len(),
{
    if ops.len() == 0 {
        0
    } else {
        let earlier = removals(files, ops.drop_last());
        if removes(replayed(files, ops.drop_last()), ops.last()) {
            earlier + 1
        } else {
            earlier
        }
    }
}

/// One change adds a file if it creates a path that is not stored, takes
/// one away if it deletes a stored path, and keeps the number of files
/// otherwise.
pub proof fn lemma_size_step(files: Files, op: FileOp)
    requires
        files.dom().finite(),
    ensures
        applied(files, op).dom().finite(),
        applied(files, op).len() == files.len() + (if adds(files, op) {
            1int
        } else {
            0int
        }) - (if removes(files, op) {
            1int
        } else {
            0int
        }),
{
    match op {
        FileOp::Create { path, data } => {},
        FileOp::Write { path, data } => {},
        FileOp::Delete { path } => {},
    }
}

/// After any sequence of changes, the number of files is the number before,
/// plus the creates of paths that were not stored, minus the deletes that
/// found their path. From an empty store it is the one minus the other.
pub proof fn lemma_size(files: Files, ops: Seq<FileOp>)
    requires
        files.dom().finite(),
    ensures
        replayed(files, ops).dom().finite(),
        replayed(files, ops).len() == files.len() + additions(files, ops) - removals(files, ops),
    decreases ops.len(),
{
    if ops.len() > 0 {
        lemma_size(files, ops.drop_last());
        lemma_size_step(replayed(files, ops.drop_last()), ops.last());
    }
}

/// A write or a delete that is refused leaves the files as they were.
pub proof fn lemma_refused_changes_nothing(files: Files, path: Seq<char>, data: Seq<char>)
    requires
        !files.contains_key(path),
    ensures
        written(files, path, data) == files,
        deleted(files, path) == files,
{
}

/// What was created under a path is what a read of that path finds.
pub proof fn lemma_create_then_read(files: Files, path: Seq<char>, data: Seq<char>)
    ensures
        stored(created(files, path, data), path) == Some(data),
{
}

/// A second create under the same path replaces the first: the store is as
/// if only the second had been made.
pub proof fn lemma_create_twice(files: Files, path: Seq<char>, first: Seq<char>, second: Seq<char>)
    ensures
        created(created(files, path, first), path, second) == created(files, path, second),
        stored(created(created(files, path, first), path, second), path) == Some(second),
{
}

/// After a delete the path is not stored, so a second delete of it is
/// refused and changes nothing.
pub proof fn lemma_delete_twice(files: Files, path: Seq<char>)
    ensures
        !deleted(files, path).contains_key(path),
        deleted(deleted(files, path), path) == deleted(files, path),
{
}

/// A write to a path that is not stored does not create it.
pub proof fn lemma_write_creates_nothing(files: Files, path: Seq<char>, data: Seq<char>)
    requires
        !files.contains_key(path),
    ensures
        written(files, path, data) == files,
        stored(written(files, path, data), path) is None,
{
}

/// A store of files. Viewed as the map from each stored path to its
/// payload.
pub struct FileStorage {
    files: Table<String>,
}

impl View for FileStorage {
    type V = Files;

    closed spec fn view(&self) -> Files {
        self.files@
    }
}

impl FileStorage {
    /// An empty store.
    pub fn new() -> (store: Self)
        ensures
            store@ == Files::empty(),
    {
        FileStorage { files: Table::new() }
    }

    /// Stores `data` under `path`, replacing what was there.
    pub fn create(&mut self, path: &str, data: &str)
        ensures
            final(self)@ == created(old(self)@, path@, data@),
    {
        self.files.insert(path.to_owned(), data.to_owned());
    }

    /// The payload stored under `path`.
    pub fn read(&self, path: &str) -> (payload: Option<&String>)
        ensures
            payload.deep_view() == stored(self@, path@),
    {
        self.files.get(path)
    }

    /// Replaces the payload of `path`. A path that is not stored is not
    /// created.
    pub fn write(&mut self, path: &str, data: &str) -> (done: Result<(), NotFound>)
        ensures
            done is Ok <==> old(self)@.contains_key(path@),
            final(self)@ == written(old(self)@, path@, data@),
            done is Err ==> final(self)@ == old(self)@,
    {
        if self.files.replace(path, data.to_owned()) {
            Ok(())
        } else {
            Err(NotFound)
        }
    }

    /// Removes `path`.
    pub fn delete(&mut self, path: &str) -> (done: Result<(), NotFound>)
        ensures
            done is Ok <==> old(self)@.contains_key(path@),
            final(self)@ == deleted(old(self)@, path@),
            done is Err ==> final(self)@ == old(self)@,
    {
        match self.files.remove(path) {
            Some(_) => Ok(()),
            None => Err(NotFound),
        }
    }

    /// Every stored path, once, in no particular order.
    pub fn list(&self) -> (paths: Vec<String>)
        ensures
            self@.dom().finite(),
            lists(paths.deep_view(), self@),
    {
        self.files.key_list()
    }
}

} // verus!
