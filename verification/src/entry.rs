//! Directory entries as the planners see them: a name and what kind of node
//! carries it.  Listings are handed in by the unverified shell, which reads
//! the real directories.

use vstd::prelude::*;

verus! {

/// What kind of node a directory entry is, with the data the replication
/// rules need: a symlink carries its target text.
#[derive(Debug, Clone, PartialEq, Eq)]
pub enum EntryKind {
    /// A symbolic link whose target text is the payload.
    Symlink(Vec<u8>),
    /// A directory.
    Directory,
    /// A regular file or any other node.
    Other,
}

/// Mathematical image of an [`EntryKind`].
pub enum KindV {
    Symlink(Seq<u8>),
    Directory,
    Other,
}

impl View for EntryKind {
    type V = KindV;

    open spec fn view(&self) -> KindV {
        match self {
            EntryKind::Symlink(dest) => KindV::Symlink(dest@),
            EntryKind::Directory => KindV::Directory,
            EntryKind::Other => KindV::Other,
        }
    }
}

/// One immediate child of a directory.
#[derive(Debug, Clone, PartialEq, Eq)]
pub struct Entry {
    pub name: Vec<u8>,
    pub kind: EntryKind,
}

/// Mathematical image of an [`Entry`].
pub struct EntryV {
    pub name: Seq<u8>,
    pub kind: KindV,
}

impl View for Entry {
    type V = EntryV;

    open spec fn view(&self) -> EntryV {
        EntryV { name: self.name@, kind: self.kind@ }
    }
}

/// The image of a listing: each entry replaced by its mathematical view.
pub open spec fn entry_views(es: Seq<Entry>) -> Seq<EntryV> {
    es.map_values(|e: Entry| e@)
}

/// No two entries of the listing share a name, as holds of any real
/// directory.
pub open spec fn distinct_names(es: Seq<EntryV>) -> bool {
    forall|i: int, j: int| 0 <= i < j < es.len() ==> es[i].name != es[j].name
}

/// Some entry of the listing bears the name `n`.
pub open spec fn has_name(es: Seq<EntryV>, n: Seq<u8>) -> bool {
    exists|i: int| 0 <= i < es.len() && es[i].name == n
}

} // verus!
