//! The filesystem side of a prompt: the capability the engine lists
//! directories through.
//!
//! The filesystem is an external, mutable resource: two listings of the
//! same directory may differ, and any listing may fail.  The engine
//! therefore assumes nothing of [`FileSystem`] and is verified for every
//! implementation and every outcome.  A real implementation over the
//! operating system lives outside the library; [`MemoryFileSystem`]
//! implements the trait here over an in-memory tree, with an exact
//! contract, so prompts can be driven deterministically.

use vstd::prelude::*;
use crate::entry::{RawEntry, RawEntryV, raw_views};
use crate::path::FsPath;

verus! {

/// The capability to list a directory's children.  `Err` carries the
/// message shown in the prompt's error banner.
pub trait FileSystem: Sized {
    /// Lists the children of `path`: their names and kinds, in the
    /// enumeration order the resource reports.
    fn read_dir(&mut self, path: &FsPath) -> Result<Vec<RawEntry>, String>;
}

/// One directory of an in-memory tree.
pub struct MemoryDir {
    pub path: FsPath,
    pub children: Vec<RawEntry>,
}

/// The children recorded for `p`: the first directory with that path.
pub open spec fn find_dir(dirs: Seq<MemoryDir>, p: Seq<Seq<char>>) -> Option<Seq<RawEntryV>>
    decreases dirs.len(),
{
    if dirs.len() == 0 {
        None
    } else if dirs[0].path@ == p {
        Some(raw_views(dirs[0].children@))
    } else {
        find_dir(dirs.drop_first(), p)
    }
}

/// An in-memory filesystem: a list of directories with their children.
pub struct MemoryFileSystem {
    pub dirs: Vec<MemoryDir>,
}

impl MemoryFileSystem {
    /// A filesystem with no directories: every listing fails.
    pub fn new() -> (r: Self)
        ensures
            r.dirs@.len() == 0,
    {
        MemoryFileSystem { dirs: Vec::new() }
    }

    /// Records the directory `path` with the given children.
    pub fn add_dir(&mut self, path: FsPath, children: Vec<RawEntry>)
        ensures
            final(self).dirs@.len() == old(self).dirs@.len() + 1,
            final(self).dirs@.last().path@ == path@,
            raw_views(final(self).dirs@.last().children@) == raw_views(children@),
            final(self).dirs@.drop_last() == old(self).dirs@,
    {
        self.dirs.push(MemoryDir { path, children });
        proof {
            assert(final(self).dirs@.drop_last() =~= old(self).dirs@);
        }
    }
}

impl FileSystem for MemoryFileSystem {
    fn read_dir(&mut self, path: &FsPath) -> (r: Result<Vec<RawEntry>, String>)
        ensures
            *final(self) == *old(self),
            r is Ok <==> find_dir(old(self).dirs@, path@) is Some,
            r matches Ok(v) ==> find_dir(old(self).dirs@, path@) == Some(raw_views(v@)),
            r matches Err(m) ==> m@ == "cannot list directory"@,
    {
        let ghost all = self.dirs@;
        let mut i: usize = 0;
        proof {
            assert(all.skip(0) =~= all);
        }
        while i < self.dirs.len()
            invariant
                *self == *old(self),
                all == self.dirs@,
                i <= all.len(),
                find_dir(all, path@) == find_dir(all.skip(i as int), path@),
                forall|j: int| 0 <= j < i ==> #[trigger] all[j].path@ != path@,
            decreases all.len() - i,
        {
            proof {
                assert(all.skip(i as int)[0] == all[i as int]);
            }
            if self.dirs[i].path.equals(path) {
                let dir = &self.dirs[i];
                let mut out: Vec<RawEntry> = Vec::new();
                let mut k: usize = 0;
                while k < dir.children.len()
                    invariant
                        k <= dir.children@.len(),
                        out@.len() == k,
                        forall|j: int| 0 <= j < k ==> #[trigger] out@[j]@ == dir.children@[j]@,
                    decreases dir.children@.len() - k,
                {
                    let c = &dir.children[k];
                    out.push(RawEntry { name: c.name.clone(), kind: c.kind });
                    k = k + 1;
                }
                proof {
                    assert(raw_views(out@) =~= raw_views(all[i as int].children@));
                }
                return Ok(out);
            }
            proof {
                assert(all.skip(i as int).drop_first() =~= all.skip(i + 1));
            }
            i = i + 1;
        }
        proof {
            assert(all.skip(all.len() as int).len() == 0);
        }
        Err("cannot list directory".to_owned())
    }
}

} // verus!
