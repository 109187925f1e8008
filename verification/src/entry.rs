//! Directory entries and the filetype filter.
//!
//! A raw entry is what a filesystem capability reports for one child of a
//! directory: its name and its kind.  The listing pipeline turns raw entries
//! into [`DirectoryEntry`] values, which also carry the absolute path of the
//! child.  The [`FiletypeFilter`] is the set of entry kinds a prompt shows;
//! the empty set means "show everything".

use vstd::prelude::*;
use crate::path::FsPath;

verus! {

/// The kind of one filesystem entry.
#[derive(Clone, Copy, PartialEq, Eq, Structural, Debug)]
pub enum EntryKind {
    File,
    Directory,
    Symlink,
    Other,
}

/// The set of entry kinds a prompt displays and allows for selection.
/// The empty set filters nothing: every kind is shown.
#[derive(Clone, Copy, PartialEq, Eq, Structural, Debug)]
pub struct FiletypeFilter {
    pub files: bool,
    pub directories: bool,
    pub symlinks: bool,
    pub others: bool,
}

impl FiletypeFilter {
    pub open spec fn spec_is_empty(&self) -> bool {
        !self.files && !self.directories && !self.symlinks && !self.others
    }

    pub open spec fn spec_contains(&self, k: EntryKind) -> bool {
        match k {
            EntryKind::File => self.files,
            EntryKind::Directory => self.directories,
            EntryKind::Symlink => self.symlinks,
            EntryKind::Other => self.others,
        }
    }

    /// Whether an entry of kind `k` is shown under this filter: it is a
    /// member of the set, or the set is empty and nothing is filtered.
    pub open spec fn admits(&self, k: EntryKind) -> bool {
        self.spec_is_empty() || self.spec_contains(k)
    }

    /// The empty filter: no kind named, so everything is shown.
    pub fn empty() -> (r: Self)
        ensures
            r.spec_is_empty(),
    {
        FiletypeFilter { files: false, directories: false, symlinks: false, others: false }
    }

    /// This filter with the kind `k` added to the set.
    pub fn with(self, k: EntryKind) -> (r: Self)
        ensures
            r.spec_contains(k),
            forall|j: EntryKind| j != k ==> r.spec_contains(j) == self.spec_contains(j),
    {
        match k {
            EntryKind::File => FiletypeFilter { files: true, ..self },
            EntryKind::Directory => FiletypeFilter { directories: true, ..self },
            EntryKind::Symlink => FiletypeFilter { symlinks: true, ..self },
            EntryKind::Other => FiletypeFilter { others: true, ..self },
        }
    }

    /// Whether `k` is a member of the set.
    pub fn contains(&self, k: EntryKind) -> (r: bool)
        ensures
            r == self.spec_contains(k),
    {
        match k {
            EntryKind::File => self.files,
            EntryKind::Directory => self.directories,
            EntryKind::Symlink => self.symlinks,
            EntryKind::Other => self.others,
        }
    }

    /// Whether an entry of kind `k` is shown under this filter.
    pub fn allows(&self, k: EntryKind) -> (r: bool)
        ensures
            r == self.admits(k),
    {
        let none_named = !self.files && !self.directories && !self.symlinks && !self.others;
        none_named || self.contains(k)
    }
}

impl Default for FiletypeFilter {
    /// The default filter: the empty one, which shows everything.
    fn default() -> (r: Self)
        ensures
            r.spec_is_empty(),
    {
        FiletypeFilter::empty()
    }
}

/// One child of a directory as the filesystem capability reports it.
pub struct RawEntry {
    pub name: String,
    pub kind: EntryKind,
}

/// The mathematical value of a raw entry.
#[verifier::ext_equal]
pub ghost struct RawEntryV {
    pub name: Seq<char>,
    pub kind: EntryKind,
}

impl View for RawEntry {
    type V = RawEntryV;

    open spec fn view(&self) -> RawEntryV {
        RawEntryV { name: self.name@, kind: self.kind }
    }
}

/// One entry of the navigation list: a child of the browsed directory,
/// with its absolute path.
pub struct DirectoryEntry {
    pub name: String,
    pub kind: EntryKind,
    pub path: FsPath,
}

/// The mathematical value of a directory entry.
#[verifier::ext_equal]
pub ghost struct EntryV {
    pub name: Seq<char>,
    pub kind: EntryKind,
    pub path: Seq<Seq<char>>,
}

impl View for DirectoryEntry {
    type V = EntryV;

    open spec fn view(&self) -> EntryV {
        EntryV { name: self.name@, kind: self.kind, path: self.path@ }
    }
}

impl DirectoryEntry {
    /// An independent copy of the entry, equal to it.
    pub fn duplicate(&self) -> (r: Self)
        ensures
            r@ == self@,
    {
        DirectoryEntry {
            name: self.name.clone(),
            kind: self.kind,
            path: self.path.duplicate(),
        }
    }
}

/// The values of a whole listing.
pub open spec fn entry_views(s: Seq<DirectoryEntry>) -> Seq<EntryV> {
    s.map_values(|e: DirectoryEntry| e@)
}

/// The values of a whole raw listing.
pub open spec fn raw_views(s: Seq<RawEntry>) -> Seq<RawEntryV> {
    s.map_values(|e: RawEntry| e@)
}

} // verus!
