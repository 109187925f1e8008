//! The listing pipeline: what a prompt shows for one directory.
//!
//! On entering a directory the engine takes the raw children the filesystem
//! reported, keeps those the filetype filter admits, attaches the absolute
//! path of each child, and sorts the result: directories first, then
//! case-insensitive name order, ties kept in enumeration order.

use vstd::prelude::*;
use crate::entry::{
    DirectoryEntry, EntryV, FiletypeFilter, RawEntry, RawEntryV, entry_views, raw_views,
};
use crate::order::{
    lemma_sort_entries_multiset, lemma_sort_entries_sorted, sort_entries, sort_listing,
    sorted_by_entry_le,
};
use crate::path::FsPath;

verus! {

/// The directory entry for one raw child of `parent`.
pub open spec fn child_of(parent: Seq<Seq<char>>, r: RawEntryV) -> EntryV {
    EntryV { name: r.name, kind: r.kind, path: parent.push(r.name) }
}

/// The raw children the filter keeps, in enumeration order.
pub open spec fn kept_children(f: FiletypeFilter, raw: Seq<RawEntryV>) -> Seq<RawEntryV> {
    raw.filter(|r: RawEntryV| f.admits(r.kind))
}

/// The full listing for one directory: filtered, given absolute paths,
/// and sorted into the listing order.
pub open spec fn listed_entries(
    parent: Seq<Seq<char>>,
    f: FiletypeFilter,
    raw: Seq<RawEntryV>,
) -> Seq<EntryV> {
    sort_entries(kept_children(f, raw).map_values(|r: RawEntryV| child_of(parent, r)))
}

/// Builds the navigation list for the directory `parent` from the raw
/// children the filesystem reported: exactly the sequence
/// [`listed_entries`] describes.
pub fn build_listing(parent: &FsPath, f: &FiletypeFilter, raw: &Vec<RawEntry>) -> (out: Vec<
    DirectoryEntry,
>)
    ensures
        entry_views(out@) == listed_entries(parent@, *f, raw_views(raw@)),
{
    let ghost pred = |r: RawEntryV| f.admits(r.kind);
    let ghost lift = |r: RawEntryV| child_of(parent@, r);
    let mut kept: Vec<DirectoryEntry> = Vec::new();
    let mut i: usize = 0;
    proof {
        reveal(Seq::filter);
        assert(raw_views(raw@.subrange(0, 0)) =~= Seq::<RawEntryV>::empty());
        assert(entry_views(kept@) =~= raw_views(raw@.subrange(0, 0)).filter(pred).map_values(lift));
    }
    while i < raw.len()
        invariant
            i <= raw@.len(),
            entry_views(kept@) == raw_views(raw@.subrange(0, i as int)).filter(pred).map_values(
                lift,
            ),
            pred == (|r: RawEntryV| f.admits(r.kind)),
            lift == (|r: RawEntryV| child_of(parent@, r)),
        decreases raw@.len() - i,
    {
        let ghost pre_raw = raw_views(raw@.subrange(0, i as int));
        let ghost cur_raw = raw_views(raw@.subrange(0, i + 1));
        proof {
            reveal(Seq::filter);
            assert(cur_raw.drop_last() =~= pre_raw);
            assert(cur_raw.last() == raw@[i as int]@);
        }
        let ghost old_kept = kept@;
        let r = &raw[i];
        if f.allows(r.kind) {
            let child = DirectoryEntry {
                name: r.name.clone(),
                kind: r.kind,
                path: parent.join(&r.name),
            };
            let ghost childv = child@;
            kept.push(child);
            proof {
                reveal(Seq::filter);
                assert(pred(cur_raw.last()));
                assert(cur_raw.filter(pred) =~= pre_raw.filter(pred).push(cur_raw.last()));
                assert(childv == lift(cur_raw.last()));
                let lhs = entry_views(kept@);
                let rhs = cur_raw.filter(pred).map_values(lift);
                assert(entry_views(old_kept) == pre_raw.filter(pred).map_values(lift));
                assert(entry_views(old_kept).len() == old_kept.len());
                assert(pre_raw.filter(pred).map_values(lift).len() == pre_raw.filter(pred).len());
                assert(lhs.len() == rhs.len());
                assert forall|k: int| 0 <= k < lhs.len() implies lhs[k] == rhs[k] by {
                    if k < lhs.len() - 1 {
                        assert(lhs[k] == entry_views(old_kept)[k]);
                        assert(rhs[k] == pre_raw.filter(pred).map_values(lift)[k]);
                    } else {
                        assert(lhs[k] == childv);
                        assert(rhs[k] == lift(cur_raw.last()));
                    }
                }
                assert(lhs =~= rhs);
            }
        } else {
            proof {
                reveal(Seq::filter);
                assert(!pred(cur_raw.last()));
                assert(cur_raw.filter(pred) =~= pre_raw.filter(pred));
                assert(entry_views(kept@) =~= cur_raw.filter(pred).map_values(lift));
            }
        }
        i = i + 1;
    }
    proof {
        assert(raw@.subrange(0, raw@.len() as int) =~= raw@);
    }
    sort_listing(&kept)
}

/// The listing never shows an entry the filter does not admit; with a
/// non-empty filter, every listed entry's kind is a member of the set.
pub proof fn lemma_listing_respects_filter(
    parent: Seq<Seq<char>>,
    f: FiletypeFilter,
    raw: Seq<RawEntryV>,
)
    ensures
        forall|i: int|
            0 <= i < listed_entries(parent, f, raw).len() ==> f.admits(
                #[trigger] listed_entries(parent, f, raw)[i].kind,
            ),
        !f.spec_is_empty() ==> forall|i: int|
            0 <= i < listed_entries(parent, f, raw).len() ==> f.spec_contains(
                #[trigger] listed_entries(parent, f, raw)[i].kind,
            ),
{
    broadcast use vstd::seq_lib::group_to_multiset_ensures;
    broadcast use vstd::seq_lib::group_filter_ensures;

    let pred = |r: RawEntryV| f.admits(r.kind);
    let lift = |r: RawEntryV| child_of(parent, r);
    let kept = kept_children(f, raw);
    let lifted = kept.map_values(lift);
    let listed = listed_entries(parent, f, raw);
    lemma_sort_entries_multiset(lifted);
    assert forall|i: int| 0 <= i < listed.len() implies f.admits(
        #[trigger] listed[i].kind,
    ) by {
        assert(listed.contains(listed[i]));
        assert(listed.to_multiset().count(listed[i]) > 0);
        assert(lifted.to_multiset().count(listed[i]) > 0);
        assert(lifted.contains(listed[i]));
        let j = choose|j: int| 0 <= j < lifted.len() && lifted[j] == listed[i];
        assert(lifted[j] == lift(kept[j]));
        assert(pred(kept[j]));
    }
}

/// Every listed entry is a child of the listed directory: its path is the
/// parent's path extended by its own name, and its kind is admitted.
pub proof fn lemma_listing_shape(parent: Seq<Seq<char>>, f: FiletypeFilter, raw: Seq<RawEntryV>)
    ensures
        forall|i: int|
            0 <= i < listed_entries(parent, f, raw).len() ==> {
                let e = #[trigger] listed_entries(parent, f, raw)[i];
                e.path == parent.push(e.name) && f.admits(e.kind)
            },
{
    broadcast use vstd::seq_lib::group_to_multiset_ensures;
    broadcast use vstd::seq_lib::group_filter_ensures;

    let pred = |r: RawEntryV| f.admits(r.kind);
    let lift = |r: RawEntryV| child_of(parent, r);
    let kept = kept_children(f, raw);
    let lifted = kept.map_values(lift);
    let listed = listed_entries(parent, f, raw);
    lemma_sort_entries_multiset(lifted);
    assert forall|i: int| 0 <= i < listed.len() implies {
        let e = #[trigger] listed[i];
        e.path == parent.push(e.name) && f.admits(e.kind)
    } by {
        assert(listed.contains(listed[i]));
        assert(listed.to_multiset().count(listed[i]) > 0);
        assert(lifted.to_multiset().count(listed[i]) > 0);
        assert(lifted.contains(listed[i]));
        let j = choose|j: int| 0 <= j < lifted.len() && lifted[j] == listed[i];
        assert(lifted[j] == lift(kept[j]));
        assert(pred(kept[j]));
    }
}

/// With an empty filter the listing is exactly the directory's children:
/// each exactly once, each with its path below the parent, sorted into the
/// listing order.
pub proof fn lemma_listing_complete(parent: Seq<Seq<char>>, f: FiletypeFilter, raw: Seq<RawEntryV>)
    requires
        f.spec_is_empty(),
    ensures
        listed_entries(parent, f, raw).to_multiset() == raw.map_values(
            |r: RawEntryV| child_of(parent, r),
        ).to_multiset(),
        listed_entries(parent, f, raw).len() == raw.len(),
        sorted_by_entry_le(listed_entries(parent, f, raw)),
{
    let pred = |r: RawEntryV| f.admits(r.kind);
    let lift = |r: RawEntryV| child_of(parent, r);
    lemma_filter_all(raw, pred);
    assert(kept_children(f, raw) == raw);
    lemma_sort_entries_multiset(raw.map_values(lift));
    lemma_sort_entries_sorted(raw.map_values(lift));
}

/// Whatever the filter, the listing is sorted in the listing order.
pub proof fn lemma_listing_sorted(parent: Seq<Seq<char>>, f: FiletypeFilter, raw: Seq<RawEntryV>)
    ensures
        sorted_by_entry_le(listed_entries(parent, f, raw)),
{
    let lift = |r: RawEntryV| child_of(parent, r);
    lemma_sort_entries_sorted(kept_children(f, raw).map_values(lift));
}

/// Filtering with a predicate that holds everywhere keeps the sequence.
proof fn lemma_filter_all(s: Seq<RawEntryV>, pred: spec_fn(RawEntryV) -> bool)
    requires
        forall|i: int| 0 <= i < s.len() ==> pred(#[trigger] s[i]),
    ensures
        s.filter(pred) == s,
    decreases s.len(),
{
    reveal(Seq::filter);
    if s.len() > 0 {
        lemma_filter_all(s.drop_last(), pred);
        assert(s.drop_last().push(s.last()) =~= s);
    }
}

} // verus!
