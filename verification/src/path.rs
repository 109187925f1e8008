//! Absolute filesystem paths, modelled as the sequence of their components.
//!
//! The prompt only ever needs three operations on the directory it is
//! browsing: descend into a child, ascend to the parent, and print the path.
//! A path is therefore held as the list of its components below the root;
//! the root itself is the empty list.

use vstd::prelude::*;

verus! {

/// An absolute filesystem path: the components below the root, in order.
/// The root directory is the empty sequence of components.
pub struct FsPath {
    components: Vec<String>,
}

impl View for FsPath {
    type V = Seq<Seq<char>>;

    closed spec fn view(&self) -> Seq<Seq<char>> {
        self.components@.map_values(|s: String| s@)
    }
}

/// The text of a non-root path: each component preceded by a `/` separator.
pub open spec fn joined_text(s: Seq<Seq<char>>) -> Seq<char>
    decreases s.len(),
{
    if s.len() == 0 {
        Seq::empty()
    } else {
        joined_text(s.drop_last()).push('/') + s.last()
    }
}

/// The text of a path: `/` for the root, otherwise `/c1/c2/...`.
pub open spec fn path_text(s: Seq<Seq<char>>) -> Seq<char> {
    if s.len() == 0 {
        seq!['/']
    } else {
        joined_text(s)
    }
}

impl FsPath {
    /// The filesystem root: no components.
    pub fn root() -> (r: Self)
        ensures
            r@ == Seq::<Seq<char>>::empty(),
    {
        FsPath { components: Vec::new() }
    }

    pub open spec fn spec_is_root(&self) -> bool {
        self@.len() == 0
    }

    /// Whether this path is the filesystem root.
    pub fn is_root(&self) -> (r: bool)
        ensures
            r == self.spec_is_root(),
    {
        self.components.len() == 0
    }

    /// How many components below the root the path has.
    pub fn depth(&self) -> (n: usize)
        ensures
            n == self@.len(),
    {
        self.components.len()
    }

    /// An independent copy of the path, equal to it.
    pub fn duplicate(&self) -> (r: Self)
        ensures
            r@ == self@,
    {
        let copy: Vec<String> = self.components.clone();
        proof {
            assert(forall|i: int|
                0 <= i < self.components@.len() ==> copy@[i]@ == #[trigger] self.components@[i]@);
            assert(FsPath { components: copy }@ =~= self@);
        }
        FsPath { components: copy }
    }

    /// The path of the child `name` of this directory.
    pub fn join(&self, name: &String) -> (r: Self)
        ensures
            r@ == self@.push(name@),
    {
        let mut c: Vec<String> = self.components.clone();
        c.push(name.clone());
        proof {
            assert(forall|i: int|
                0 <= i < self.components@.len() ==> c@[i]@ == #[trigger] self.components@[i]@);
            assert(FsPath { components: c }@ =~= self@.push(name@));
        }
        FsPath { components: c }
    }

    /// The parent directory; ascending from the root is a no-op.
    pub fn parent(&self) -> (r: Self)
        ensures
            self.spec_is_root() ==> r@ == self@,
            !self.spec_is_root() ==> r@ == self@.drop_last(),
    {
        let mut c: Vec<String> = self.components.clone();
        proof {
            assert(forall|i: int|
                0 <= i < self.components@.len() ==> c@[i]@ == #[trigger] self.components@[i]@);
            assert(FsPath { components: c }@ =~= self@);
        }
        if c.len() > 0 {
            c.pop();
            proof {
                assert(FsPath { components: c }@ =~= self@.drop_last());
            }
        }
        FsPath { components: c }
    }

    /// Whether two paths are the same path.
    pub fn equals(&self, other: &FsPath) -> (r: bool)
        ensures
            r == (self@ == other@),
    {
        if self.components.len() != other.components.len() {
            proof {
                assert(self@.len() != other@.len());
            }
            return false;
        }
        let mut i: usize = 0;
        while i < self.components.len()
            invariant
                i <= self.components@.len(),
                self.components@.len() == other.components@.len(),
                forall|j: int| 0 <= j < i ==> self@[j] == other@[j],
            decreases self.components@.len() - i,
        {
            if self.components[i] != other.components[i] {
                proof {
                    assert(self@[i as int] != other@[i as int]);
                }
                return false;
            }
            i = i + 1;
        }
        proof {
            assert(self@ =~= other@);
        }
        true
    }

    /// The textual form of the path, `/`-separated, starting with `/`.
    pub fn to_text(&self) -> (r: String)
        ensures
            r@ == path_text(self@),
    {
        let mut out = String::new();
        if self.components.len() == 0 {
            out.append("/");
            proof {
                reveal_strlit("/");
                assert(out@ =~= path_text(self@));
            }
            out
        } else {
            let mut i: usize = 0;
            while i < self.components.len()
                invariant
                    i <= self.components@.len(),
                    out@ == joined_text(self@.subrange(0, i as int)),
                decreases self.components@.len() - i,
            {
                out.append("/");
                out.append(self.components[i].as_str());
                proof {
                    reveal_strlit("/");
                    let pre = self@.subrange(0, i as int);
                    let cur = self@.subrange(0, i + 1 as int);
                    assert(cur.drop_last() =~= pre);
                    assert(cur.last() == self@[i as int]);
                    assert(out@ =~= joined_text(pre).push('/') + self@[i as int]);
                }
                i = i + 1;
            }
            proof {
                assert(self@.subrange(0, self@.len() as int) =~= self@);
            }
            out
        }
    }
}

} // verus!
