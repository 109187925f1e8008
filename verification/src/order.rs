//! Ordering of directory entries.
//!
//! A listing shows directories first, then everything else, each group in
//! ascending case-insensitive name order; entries that compare equal keep
//! the order in which the filesystem enumerated them.  The order is defined
//! here as spec functions, the sort as an exact functional specification
//! (a stable insertion sort), and the executable sort is proved to return
//! precisely that sequence.

use vstd::prelude::*;
use vstd::multiset::Multiset;
use crate::entry::{DirectoryEntry, EntryKind, EntryV, entry_views};

verus! {

/// The code point used when comparing characters: ASCII upper-case letters
/// compare as their lower-case forms, every other character as itself.
pub open spec fn lower_code(c: char) -> int {
    if 'A' <= c && c <= 'Z' {
        c as int + 32
    } else {
        c as int
    }
}

/// Case-insensitive lexicographic "less or equal" on names.
pub open spec fn lex_le(a: Seq<char>, b: Seq<char>) -> bool
    decreases a.len(),
{
    if a.len() == 0 {
        true
    } else if b.len() == 0 {
        false
    } else if lower_code(a[0]) < lower_code(b[0]) {
        true
    } else if lower_code(a[0]) > lower_code(b[0]) {
        false
    } else {
        lex_le(a.drop_first(), b.drop_first())
    }
}

/// The sort group of an entry kind: directories come before everything else.
pub open spec fn group_of(k: EntryKind) -> int {
    if k == EntryKind::Directory {
        0
    } else {
        1
    }
}

/// The listing order: by group, then by case-insensitive name.
pub open spec fn entry_le(a: EntryV, b: EntryV) -> bool {
    group_of(a.kind) < group_of(b.kind)
        || (group_of(a.kind) == group_of(b.kind) && lex_le(a.name, b.name))
}

/// `lex_le` is total: of any two names, one is less or equal to the other.
pub proof fn lemma_lex_le_total(a: Seq<char>, b: Seq<char>)
    ensures
        lex_le(a, b) || lex_le(b, a),
    decreases a.len(),
{
    if a.len() == 0 || b.len() == 0 {
    } else if lower_code(a[0]) == lower_code(b[0]) {
        lemma_lex_le_total(a.drop_first(), b.drop_first());
    }
}

/// `lex_le` is transitive.
pub proof fn lemma_lex_le_trans(a: Seq<char>, b: Seq<char>, c: Seq<char>)
    requires
        lex_le(a, b),
        lex_le(b, c),
    ensures
        lex_le(a, c),
    decreases a.len(),
{
    if a.len() == 0 {
    } else if b.len() == 0 {
    } else if c.len() == 0 {
    } else if lower_code(a[0]) == lower_code(b[0]) && lower_code(b[0]) == lower_code(c[0]) {
        lemma_lex_le_trans(a.drop_first(), b.drop_first(), c.drop_first());
    }
}

/// The listing order is total.
pub proof fn lemma_entry_le_total(a: EntryV, b: EntryV)
    ensures
        entry_le(a, b) || entry_le(b, a),
{
    lemma_lex_le_total(a.name, b.name);
}

/// The listing order is transitive.
pub proof fn lemma_entry_le_trans(a: EntryV, b: EntryV, c: EntryV)
    requires
        entry_le(a, b),
        entry_le(b, c),
    ensures
        entry_le(a, c),
{
    if group_of(a.kind) == group_of(b.kind) && group_of(b.kind) == group_of(c.kind) {
        lemma_lex_le_trans(a.name, b.name, c.name);
    }
}

/// A sequence sorted in the listing order: each entry is less or equal to
/// its successor.
pub open spec fn sorted_by_entry_le(s: Seq<EntryV>) -> bool {
    forall|i: int| 0 <= i < s.len() - 1 ==> entry_le(s[i], #[trigger] s[i + 1])
}

/// Stable insertion of `x` into `t`: `x` goes after every entry that is
/// less or equal to it, so an entry inserted later never overtakes an
/// equal one inserted earlier.
pub open spec fn insert_sorted(t: Seq<EntryV>, x: EntryV) -> Seq<EntryV>
    decreases t.len(),
{
    if t.len() == 0 {
        seq![x]
    } else if entry_le(t[0], x) {
        seq![t[0]] + insert_sorted(t.drop_first(), x)
    } else {
        seq![x] + t
    }
}

/// The listing sort: stable insertion sort, defined functionally.  This is
/// the exact sequence the executable sort returns.
pub open spec fn sort_entries(s: Seq<EntryV>) -> Seq<EntryV>
    decreases s.len(),
{
    if s.len() == 0 {
        Seq::empty()
    } else {
        insert_sorted(sort_entries(s.drop_last()), s.last())
    }
}

/// Inserting adds exactly the inserted entry.
proof fn lemma_insert_sorted_multiset(t: Seq<EntryV>, x: EntryV)
    ensures
        insert_sorted(t, x).to_multiset() == t.to_multiset().insert(x),
        insert_sorted(t, x).len() == t.len() + 1,
    decreases t.len(),
{
    broadcast use vstd::seq_lib::group_to_multiset_ensures;

    if t.len() == 0 {
        assert(seq![x] =~= Seq::<EntryV>::empty().push(x));
        assert(Seq::<EntryV>::empty().push(x).to_multiset() =~= Multiset::<
            EntryV,
        >::empty().insert(x));
        assert(insert_sorted(t, x).to_multiset() =~= t.to_multiset().insert(x));
    } else if entry_le(t[0], x) {
        lemma_insert_sorted_multiset(t.drop_first(), x);
        let rest = insert_sorted(t.drop_first(), x);
        assert(seq![t[0]] + rest =~= rest.insert(0, t[0]));
        assert(t =~= t.drop_first().insert(0, t[0]));
        lemma_multiset_insert_any(rest, 0, t[0]);
        lemma_multiset_insert_any(t.drop_first(), 0, t[0]);
        assert(insert_sorted(t, x).to_multiset() =~= t.to_multiset().insert(x));
    } else {
        assert(seq![x] + t =~= t.insert(0, x));
        lemma_multiset_insert_any(t, 0, x);
        assert(insert_sorted(t, x).to_multiset() =~= t.to_multiset().insert(x));
    }
}

/// Inserting into a sequence at any position adds the element to its
/// multiset of values.
proof fn lemma_multiset_insert_any(s: Seq<EntryV>, i: int, x: EntryV)
    requires
        0 <= i <= s.len(),
    ensures
        s.insert(i, x).to_multiset() == s.to_multiset().insert(x),
    decreases s.len(),
{
    broadcast use vstd::seq_lib::group_to_multiset_ensures;

    if i == s.len() {
        assert(s.insert(i, x) =~= s.push(x));
        assert(s.insert(i, x).to_multiset() =~= s.to_multiset().insert(x));
    } else {
        let last = s.last();
        let shorter = s.drop_last();
        lemma_multiset_insert_any(shorter, i, x);
        assert(s.insert(i, x) =~= shorter.insert(i, x).push(last));
        assert(s =~= shorter.push(last));
        assert(s.insert(i, x).to_multiset() =~= shorter.insert(i, x).to_multiset().insert(last));
        assert(s.to_multiset() =~= shorter.to_multiset().insert(last));
        assert(s.insert(i, x).to_multiset() =~= s.to_multiset().insert(x));
    }
}

/// The sort keeps exactly the entries it was given, as a multiset: nothing
/// is lost, nothing is invented, nothing is duplicated.
pub proof fn lemma_sort_entries_multiset(s: Seq<EntryV>)
    ensures
        sort_entries(s).to_multiset() == s.to_multiset(),
        sort_entries(s).len() == s.len(),
    decreases s.len(),
{
    broadcast use vstd::seq_lib::group_to_multiset_ensures;

    if s.len() > 0 {
        lemma_sort_entries_multiset(s.drop_last());
        lemma_insert_sorted_multiset(sort_entries(s.drop_last()), s.last());
        assert(s =~= s.drop_last().push(s.last()));
        assert(s.to_multiset() =~= s.drop_last().to_multiset().insert(s.last()));
    }
}

/// Every entry of an inserted-into sequence is an old entry or the new one.
proof fn lemma_insert_sorted_membership(t: Seq<EntryV>, x: EntryV)
    ensures
        forall|i: int|
            0 <= i < insert_sorted(t, x).len() ==> t.contains(#[trigger] insert_sorted(t, x)[i])
                || insert_sorted(t, x)[i] == x,
    decreases t.len(),
{
    if t.len() == 0 {
    } else if entry_le(t[0], x) {
        lemma_insert_sorted_membership(t.drop_first(), x);
        let r = insert_sorted(t, x);
        let rest = insert_sorted(t.drop_first(), x);
        assert forall|i: int| 0 <= i < r.len() implies t.contains(#[trigger] r[i]) || r[i]
            == x by {
            if i == 0 {
                assert(t[0] == r[0]);
                assert(t.contains(r[0]));
            } else {
                assert(r[i] == rest[i - 1]);
                if t.drop_first().contains(rest[i - 1]) {
                    let j = choose|j: int|
                        0 <= j < t.drop_first().len() && t.drop_first()[j] == rest[i - 1];
                    assert(t[j + 1] == rest[i - 1]);
                    assert(t.contains(r[i]));
                }
            }
        }
    }
}

/// Stable insertion into a sorted sequence keeps it sorted.
proof fn lemma_insert_sorted_keeps_sorted(t: Seq<EntryV>, x: EntryV)
    requires
        sorted_by_entry_le(t),
    ensures
        sorted_by_entry_le(insert_sorted(t, x)),
    decreases t.len(),
{
    if t.len() == 0 {
    } else if entry_le(t[0], x) {
        let u = t.drop_first();
        assert forall|i: int| 0 <= i < u.len() - 1 implies entry_le(u[i], #[trigger] u[i + 1]) by {
            assert(u[i] == t[i + 1]);
            assert(u[i + 1] == t[(i + 1) + 1]);
            assert(entry_le(t[i + 1], t[(i + 1) + 1]));
        }
        lemma_insert_sorted_keeps_sorted(u, x);
        lemma_insert_sorted_membership(u, x);
        let r = insert_sorted(t, x);
        let rest = insert_sorted(u, x);
        assert(r == seq![t[0]] + rest);
        assert forall|i: int| 0 <= i < r.len() - 1 implies entry_le(r[i], #[trigger] r[i + 1]) by {
            if i == 0 {
                assert(rest.len() > 0);
                assert(r[0] == t[0]);
                assert(r[1] == rest[0]);
                assert(u.contains(rest[0]) || rest[0] == x);
                if u.contains(rest[0]) {
                    let j = choose|j: int| 0 <= j < u.len() && u[j] == rest[0];
                    assert(t[j + 1] == rest[0]);
                    lemma_sorted_head_le(t, j + 1);
                } else {
                    assert(rest[0] == x);
                }
            } else {
                assert(r[i] == rest[i - 1]);
                assert(r[i + 1] == rest[(i - 1) + 1]);
                assert(entry_le(rest[i - 1], rest[(i - 1) + 1]));
            }
        }
    } else {
        lemma_entry_le_total(t[0], x);
        let r = insert_sorted(t, x);
        assert(r == seq![x] + t);
        assert forall|i: int| 0 <= i < r.len() - 1 implies entry_le(r[i], #[trigger] r[i + 1]) by {
            if i == 0 {
                assert(r[0] == x);
                assert(r[1] == t[0]);
            } else {
                assert(r[i] == t[i - 1]);
                assert(r[i + 1] == t[(i - 1) + 1]);
                assert(entry_le(t[i - 1], t[(i - 1) + 1]));
            }
        }
    }
}

/// In a sorted sequence the head is less or equal to every entry.
proof fn lemma_sorted_head_le(t: Seq<EntryV>, j: int)
    requires
        sorted_by_entry_le(t),
        0 <= j < t.len(),
        t.len() > 0,
    ensures
        entry_le(t[0], t[j]),
    decreases j,
{
    if j > 0 {
        lemma_sorted_head_le(t, j - 1);
        assert(entry_le(t[j - 1], t[(j - 1) + 1]));
        lemma_entry_le_trans(t[0], t[j - 1], t[j]);
    } else {
        lemma_entry_le_total(t[0], t[0]);
    }
}

/// The listing sort returns a sorted sequence.
pub proof fn lemma_sort_entries_sorted(s: Seq<EntryV>)
    ensures
        sorted_by_entry_le(sort_entries(s)),
    decreases s.len(),
{
    if s.len() > 0 {
        lemma_sort_entries_sorted(s.drop_last());
        lemma_insert_sorted_keeps_sorted(sort_entries(s.drop_last()), s.last());
    }
}

/// Entries the listing order does not distinguish: same group, names
/// equal up to case.
pub open spec fn tied(a: EntryV, b: EntryV) -> bool {
    entry_le(a, b) && entry_le(b, a)
}

/// The predicate "tied with `x`".
pub open spec fn tied_with(x: EntryV) -> spec_fn(EntryV) -> bool {
    |e: EntryV| tied(e, x)
}

/// In a sorted sequence every earlier entry is less or equal to every
/// later one.
proof fn lemma_sorted_le(t: Seq<EntryV>, i: int, j: int)
    requires
        sorted_by_entry_le(t),
        0 <= i <= j < t.len(),
    ensures
        entry_le(t[i], t[j]),
    decreases j - i,
{
    if i == j {
        lemma_entry_le_total(t[i], t[i]);
    } else {
        lemma_sorted_le(t, i, j - 1);
        assert(entry_le(t[j - 1], t[(j - 1) + 1]));
        lemma_entry_le_trans(t[i], t[j - 1], t[j]);
    }
}

/// Inserting an entry that must precede the last one leaves the last in
/// place.
proof fn lemma_insert_before_last(t: Seq<EntryV>, y: EntryV)
    requires
        t.len() > 0,
        !entry_le(t.last(), y),
    ensures
        insert_sorted(t, y) == insert_sorted(t.drop_last(), y).push(t.last()),
    decreases t.len(),
{
    if t.len() == 1 {
        assert(t[0] == t.last());
        assert(insert_sorted(t, y) == seq![y] + t);
        assert(t.drop_last().len() == 0);
        assert(insert_sorted(t.drop_last(), y) == seq![y]);
        assert(seq![y].push(t.last()) =~= seq![y] + t);
    } else {
        let tdl = t.drop_last();
        assert(tdl[0] == t[0]);
        assert(t.drop_first().last() == t.last());
        assert(t.drop_first().len() > 0);
        if entry_le(t[0], y) {
            lemma_insert_before_last(t.drop_first(), y);
            assert(t.drop_first().drop_last() =~= tdl.drop_first());
            assert(insert_sorted(t, y) == seq![t[0]] + insert_sorted(t.drop_first(), y));
            assert(insert_sorted(tdl, y) == seq![tdl[0]] + insert_sorted(tdl.drop_first(), y));
            assert((seq![t[0]] + insert_sorted(tdl.drop_first(), y)).push(t.last()) =~= seq![
                t[0],
            ] + insert_sorted(tdl.drop_first(), y).push(t.last()));
            assert(insert_sorted(t, y) =~= insert_sorted(tdl, y).push(t.last()));
        } else {
            assert(insert_sorted(t, y) == seq![y] + t);
            assert(insert_sorted(tdl, y) == seq![y] + tdl);
            assert((seq![y] + tdl).push(t.last()) =~= seq![y] + t);
        }
    }
}

/// Stable insertion into a sorted sequence never reorders nor bypasses
/// the entries tied with any fixed entry: their subsequence is kept, with
/// the new entry at its end when it is itself tied.
proof fn lemma_insert_sorted_filter_tied(t: Seq<EntryV>, y: EntryV, x: EntryV)
    requires
        sorted_by_entry_le(t),
    ensures
        insert_sorted(t, y).filter(tied_with(x)) == (if tied(y, x) {
            t.filter(tied_with(x)).push(y)
        } else {
            t.filter(tied_with(x))
        }),
    decreases t.len(),
{
    reveal(Seq::filter);
    let p = tied_with(x);
    if t.len() == 0 {
        assert(insert_sorted(t, y) == seq![y]);
        assert(seq![y].drop_last() =~= t);
        assert(seq![y].last() == y);
        assert(seq![y].filter(p) == (if p(y) {
            t.filter(p).push(y)
        } else {
            t.filter(p)
        }));
    } else if entry_le(t.last(), y) {
        assert forall|k: int| 0 <= k < t.len() implies entry_le(#[trigger] t[k], y) by {
            lemma_sorted_le(t, k, t.len() - 1);
            lemma_entry_le_trans(t[k], t.last(), y);
        }
        lemma_insert_sorted_position(t, y, t.len() as int);
        assert(t.insert(t.len() as int, y) =~= t.push(y));
        assert(t.push(y).drop_last() =~= t);
        assert(t.push(y).last() == y);
        assert(t.push(y).filter(p) == (if p(y) {
            t.filter(p).push(y)
        } else {
            t.filter(p)
        }));
    } else {
        let tdl = t.drop_last();
        let last = t.last();
        assert(sorted_by_entry_le(tdl)) by {
            assert(forall|i: int|
                0 <= i < tdl.len() - 1 ==> tdl[i] == t[i] && #[trigger] tdl[i + 1] == t[i + 1]
                    && entry_le(t[i], t[i + 1]));
        }
        lemma_insert_before_last(t, y);
        lemma_insert_sorted_filter_tied(tdl, y, x);
        let ins = insert_sorted(tdl, y);
        assert(insert_sorted(t, y) == ins.push(last));
        assert(ins.push(last).drop_last() =~= ins);
        assert(ins.push(last).last() == last);
        assert(ins.push(last).filter(p) == (if p(last) {
            ins.filter(p).push(last)
        } else {
            ins.filter(p)
        }));
        assert(t.filter(p) == (if p(last) {
            tdl.filter(p).push(last)
        } else {
            tdl.filter(p)
        }));
        if p(y) && p(last) {
            assert(entry_le(last, x));
            assert(entry_le(x, y));
            lemma_entry_le_trans(last, x, y);
            assert(false);
        }
    }
}

/// The listing sort is stable: for any entry `x`, the subsequence of
/// entries tied with `x` — same group, name equal up to case — comes out
/// exactly as it went in, so ties keep their enumeration order.
pub proof fn lemma_sort_entries_stable(s: Seq<EntryV>, x: EntryV)
    ensures
        sort_entries(s).filter(tied_with(x)) == s.filter(tied_with(x)),
    decreases s.len(),
{
    reveal(Seq::filter);
    let p = tied_with(x);
    if s.len() > 0 {
        let sdl = s.drop_last();
        let y = s.last();
        lemma_sort_entries_stable(sdl, x);
        lemma_sort_entries_sorted(sdl);
        lemma_insert_sorted_filter_tied(sort_entries(sdl), y, x);
        assert(s.filter(p) == (if p(y) {
            sdl.filter(p).push(y)
        } else {
            sdl.filter(p)
        }));
    }
}

/// The comparison code point of one character.
pub fn lower_code_exec(c: char) -> (r: u32)
    ensures
        r == lower_code(c),
{
    if c >= 'A' && c <= 'Z' {
        c as u32 + 32
    } else {
        c as u32
    }
}

/// Case-insensitive lexicographic comparison of two names.
pub fn name_le(a: &String, b: &String) -> (r: bool)
    ensures
        r == lex_le(a@, b@),
{
    let a_len = a.as_str().unicode_len();
    let b_len = b.as_str().unicode_len();
    let mut i: usize = 0;
    proof {
        assert(a@.skip(0) =~= a@);
        assert(b@.skip(0) =~= b@);
    }
    loop
        invariant
            i <= a_len,
            i <= b_len,
            a_len == a@.len(),
            b_len == b@.len(),
            lex_le(a@, b@) == lex_le(a@.skip(i as int), b@.skip(i as int)),
        decreases a_len - i,
    {
        if i >= a_len {
            proof {
                assert(a@.skip(i as int).len() == 0);
            }
            return true;
        }
        if i >= b_len {
            proof {
                assert(b@.skip(i as int).len() == 0);
                assert(a@.skip(i as int).len() > 0);
            }
            return false;
        }
        let ca = a.as_str().get_char(i);
        let cb = b.as_str().get_char(i);
        let la = lower_code_exec(ca);
        let lb = lower_code_exec(cb);
        proof {
            assert(a@.skip(i as int)[0] == a@[i as int]);
            assert(b@.skip(i as int)[0] == b@[i as int]);
        }
        if la < lb {
            return true;
        }
        if la > lb {
            return false;
        }
        proof {
            assert(a@.skip(i as int).drop_first() =~= a@.skip(i + 1));
            assert(b@.skip(i as int).drop_first() =~= b@.skip(i + 1));
        }
        i = i + 1;
    }
}

/// The listing order, executable: directories before other kinds, then by
/// case-insensitive name.
pub fn listing_le(a: &DirectoryEntry, b: &DirectoryEntry) -> (r: bool)
    ensures
        r == entry_le(a@, b@),
{
    let ga: u8 = if matches!(a.kind, EntryKind::Directory) {
        0
    } else {
        1
    };
    let gb: u8 = if matches!(b.kind, EntryKind::Directory) {
        0
    } else {
        1
    };
    if ga < gb {
        true
    } else if ga > gb {
        false
    } else {
        name_le(&a.name, &b.name)
    }
}

/// Sorts a listing: directories first, then case-insensitive name order,
/// entries that compare equal kept in their given order.  The result is
/// exactly the sequence [`sort_entries`] describes.
pub fn sort_listing(v: &Vec<DirectoryEntry>) -> (out: Vec<DirectoryEntry>)
    ensures
        entry_views(out@) == sort_entries(entry_views(v@)),
{
    let mut out: Vec<DirectoryEntry> = Vec::new();
    let mut i: usize = 0;
    proof {
        assert(entry_views(v@.subrange(0, 0)) =~= Seq::<EntryV>::empty());
        assert(entry_views(out@) =~= Seq::<EntryV>::empty());
    }
    while i < v.len()
        invariant
            i <= v@.len(),
            entry_views(out@) == sort_entries(entry_views(v@.subrange(0, i as int))),
        decreases v@.len() - i,
    {
        let x = v[i].duplicate();
        let ghost pre = entry_views(out@);
        let mut j: usize = 0;
        while j < out.len() && listing_le(&out[j], &x)
            invariant
                j <= out@.len(),
                entry_views(out@) == pre,
                x@ == v@[i as int]@,
                i < v@.len(),
                forall|k: int| 0 <= k < j ==> entry_le(pre[k], x@),
            decreases out@.len() - j,
        {
            j = j + 1;
        }
        proof {
            lemma_insert_sorted_position(pre, x@, j as int);
        }
        out.insert(j, x);
        proof {
            assert(entry_views(out@) =~= pre.insert(j as int, v@[i as int]@));
            let grown = v@.subrange(0, i + 1);
            assert(grown.drop_last() =~= v@.subrange(0, i as int));
            assert(entry_views(grown).drop_last() =~= entry_views(grown.drop_last()));
            assert(entry_views(grown).last() == v@[i as int]@);
        }
        i = i + 1;
    }
    proof {
        assert(v@.subrange(0, v@.len() as int) =~= v@);
    }
    out
}

/// Scanning for the first entry strictly greater than `x` and inserting
/// there is the same as the recursive stable insertion.
proof fn lemma_insert_sorted_position(t: Seq<EntryV>, x: EntryV, j: int)
    requires
        0 <= j <= t.len(),
        forall|k: int| 0 <= k < j ==> entry_le(t[k], x),
        j < t.len() ==> !entry_le(t[j], x),
    ensures
        insert_sorted(t, x) == t.insert(j, x),
    decreases t.len(),
{
    if t.len() == 0 {
        assert(insert_sorted(t, x) =~= t.insert(0, x));
    } else if j == 0 {
        assert(!entry_le(t[0], x));
        assert(insert_sorted(t, x) =~= t.insert(0, x));
    } else {
        assert(entry_le(t[0], x));
        assert(forall|k: int| 0 <= k < j - 1 ==> entry_le(t.drop_first()[k], x)) by {
            assert(forall|k: int| 0 <= k < j ==> entry_le(#[trigger] t[k], x));
            assert(forall|k: int| 0 <= k < j - 1 ==> t.drop_first()[k] == t[k + 1]);
        }
        assert(j - 1 < t.drop_first().len() ==> !entry_le(t.drop_first()[j - 1], x));
        lemma_insert_sorted_position(t.drop_first(), x, j - 1);
        assert(insert_sorted(t, x) =~= t.insert(j, x)) by {
            assert(insert_sorted(t, x) == seq![t[0]] + t.drop_first().insert(j - 1, x));
        }
    }
}

} // verus!

