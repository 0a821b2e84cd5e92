//! A file tree as plain values: what a scan reads of the file system.

use vstd::prelude::*;

verus! {

/// What stands at a path.
pub enum FsKind {
    /// A file, with its bytes where they could be read.
    File { content: Option<Vec<u8>> },
    /// A directory, with its children where they could be listed.
    Dir { listing: Option<Vec<FsEntry>> },
    /// Neither a file nor a directory.
    Other,
}

/// One entry of a file tree.
pub struct FsEntry {
    /// The whole path, as it is shown.
    pub path: String,
    /// The final component of the path.
    pub name: String,
    pub kind: FsKind,
}

/// A directory that had to be listed and could not be.
pub struct ListError {
    pub path: String,
}

impl FsEntry {
    /// Whether the entry is a directory.
    pub open spec fn is_dir(&self) -> bool {
        self.kind is Dir
    }

    /// A file with the given content.
    pub fn file(path: String, name: String, content: Option<Vec<u8>>) -> (entry: FsEntry)
        ensures
            entry == (FsEntry { path, name, kind: FsKind::File { content } }),
    {
        FsEntry { path, name, kind: FsKind::File { content } }
    }

    /// A directory with the given children.
    pub fn dir(path: String, name: String, listing: Option<Vec<FsEntry>>) -> (entry: FsEntry)
        ensures
            entry == (FsEntry { path, name, kind: FsKind::Dir { listing } }),
    {
        FsEntry { path, name, kind: FsKind::Dir { listing } }
    }

    /// An entry that is neither a file nor a directory.
    pub fn other(path: String, name: String) -> (entry: FsEntry)
        ensures
            entry == (FsEntry { path, name, kind: FsKind::Other }),
    {
        FsEntry { path, name, kind: FsKind::Other }
    }
}

/// The entries that a list of references points to.
pub open spec fn pointees(refs: Seq<&FsEntry>) -> Seq<FsEntry> {
    Seq::new(refs.len(), |i: int| *refs[i])
}

} // verus!
