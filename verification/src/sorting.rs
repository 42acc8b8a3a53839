//! Deterministic ordering of listing entries.
//!
//! The listing order is total and locale-independent: directories precede
//! files, and within each kind entries ascend by display name compared code
//! point by code point — the same order as comparing their encoded bytes.

use vstd::prelude::*;
use vstd::string::*;
use crate::entries::{Entry, EntryKind, EntryV};

verus! {

/// Lexicographic order on names: compare code point by code point, a name
/// ranking no later than any name it is a prefix of.
pub open spec fn lex_le(a: Seq<char>, b: Seq<char>) -> bool
    decreases a.len(),
{
    if a.len() == 0 {
        true
    } else if b.len() == 0 {
        false
    } else if (a[0] as u32) == (b[0] as u32) {
        lex_le(a.skip(1), b.skip(1))
    } else {
        (a[0] as u32) < (b[0] as u32)
    }
}

pub proof fn lemma_lex_le_total(a: Seq<char>, b: Seq<char>)
    ensures
        lex_le(a, b) || lex_le(b, a),
    decreases a.len(),
{
    if a.len() == 0 || b.len() == 0 {
    } else if (a[0] as u32) == (b[0] as u32) {
        lemma_lex_le_total(a.skip(1), b.skip(1));
    }
}

pub proof fn lemma_lex_le_trans(a: Seq<char>, b: Seq<char>, c: Seq<char>)
    requires
        lex_le(a, b),
        lex_le(b, c),
    ensures
        lex_le(a, c),
    decreases a.len(),
{
    if a.len() == 0 {
    } else {
        assert(b.len() > 0);
        assert(c.len() > 0);
        if (a[0] as u32) == (b[0] as u32) && (b[0] as u32) == (c[0] as u32) {
            lemma_lex_le_trans(a.skip(1), b.skip(1), c.skip(1));
        }
    }
}

/// Directories sort before files.
pub open spec fn kind_rank(k: EntryKind) -> int {
    match k {
        EntryKind::Directory => 0,
        EntryKind::File => 1,
    }
}

/// The listing order: by kind, ties broken by display name.
pub open spec fn entry_le(a: EntryV, b: EntryV) -> bool {
    ||| kind_rank(a.kind) < kind_rank(b.kind)
    ||| (kind_rank(a.kind) == kind_rank(b.kind) && lex_le(a.display_name, b.display_name))
}

pub proof fn lemma_entry_le_total(a: EntryV, b: EntryV)
    ensures
        entry_le(a, b) || entry_le(b, a),
{
    lemma_lex_le_total(a.display_name, b.display_name);
}

pub proof fn lemma_entry_le_trans(a: EntryV, b: EntryV, c: EntryV)
    requires
        entry_le(a, b),
        entry_le(b, c),
    ensures
        entry_le(a, c),
{
    if kind_rank(a.kind) == kind_rank(b.kind) && kind_rank(b.kind) == kind_rank(c.kind) {
        lemma_lex_le_trans(a.display_name, b.display_name, c.display_name);
    }
}

/// All earlier entries rank no later than all later ones.
pub open spec fn sorted_entries(s: Seq<EntryV>) -> bool {
    forall|i: int, j: int| 0 <= i < j < s.len() ==> entry_le(s[i], s[j])
}

/// The views of a sequence of entries.
pub open spec fn views_of(s: Seq<Entry>) -> Seq<EntryV> {
    s.map_values(|e: Entry| e@)
}

/// In a sorted listing, every entry before a directory is itself a
/// directory: all directories precede all files.
pub proof fn lemma_sorted_directories_first(s: Seq<EntryV>, i: int, j: int)
    requires
        sorted_entries(s),
        0 <= i < j < s.len(),
        s[j].kind == EntryKind::Directory,
    ensures
        s[i].kind == EntryKind::Directory,
{
    assert(entry_le(s[i], s[j]));
}

/// In a sorted listing, entries of one kind ascend by display name.
pub proof fn lemma_sorted_names_ascend_within_kind(s: Seq<EntryV>, i: int, j: int)
    requires
        sorted_entries(s),
        0 <= i < j < s.len(),
        s[i].kind == s[j].kind,
    ensures
        lex_le(s[i].display_name, s[j].display_name),
{
    assert(entry_le(s[i], s[j]));
}

/// Decides `lex_le` on the underlying character sequences.
pub fn lex_le_exec(a: &str, b: &str) -> (r: bool)
    ensures
        r == lex_le(a@, b@),
{
    let an = a.unicode_len();
    let bn = b.unicode_len();
    let mut i: usize = 0;
    proof {
        assert(a@.skip(0) =~= a@);
        assert(b@.skip(0) =~= b@);
    }
    while i < an && i < bn
        invariant
            i <= an == a@.len(),
            i <= bn == b@.len(),
            lex_le(a@, b@) == lex_le(a@.skip(i as int), b@.skip(i as int)),
        decreases an - i,
    {
        let ca = a.get_char(i) as u32;
        let cb = b.get_char(i) as u32;
        if ca != cb {
            proof {
                assert(a@.skip(i as int)[0] == a@[i as int]);
                assert(b@.skip(i as int)[0] == b@[i as int]);
            }
            return ca < cb;
        }
        proof {
            assert(a@.skip(i as int)[0] == a@[i as int]);
            assert(b@.skip(i as int)[0] == b@[i as int]);
            assert(a@.skip(i as int).skip(1) =~= a@.skip(i + 1 as int));
            assert(b@.skip(i as int).skip(1) =~= b@.skip(i + 1 as int));
        }
        i += 1;
    }
    i >= an
}

/// Decides the listing order.
pub fn entry_le_exec(a: &Entry, b: &Entry) -> (r: bool)
    ensures
        r == entry_le(a@, b@),
{
    match (a.kind, b.kind) {
        (EntryKind::Directory, EntryKind::File) => true,
        (EntryKind::File, EntryKind::Directory) => false,
        _ => lex_le_exec(a.display_name.as_str(), b.display_name.as_str()),
    }
}

/// Inserts one entry into a sorted listing, keeping it sorted; the contents
/// grow by exactly the inserted entry.
fn insert_sorted(out: &mut Vec<Entry>, x: Entry)
    requires
        sorted_entries(views_of(old(out)@)),
    ensures
        sorted_entries(views_of(final(out)@)),
        views_of(final(out)@).to_multiset() == views_of(old(out)@).to_multiset().insert(x@),
        final(out)@.len() == old(out)@.len() + 1,
{
    broadcast use vstd::seq_lib::group_to_multiset_ensures;

    let ghost vs = views_of(out@);
    let mut j: usize = 0;
    while j < out.len() && entry_le_exec(&out[j], &x)
        invariant
            j <= out.len(),
            vs == views_of(out@),
            vs.len() == out@.len(),
            forall|k: int| 0 <= k < j ==> entry_le(vs[k], x@),
        decreases out.len() - j,
    {
        j += 1;
    }
    proof {
        if (j as int) < vs.len() {
            lemma_entry_le_total(vs[j as int], x@);
        }
    }
    out.insert(j, x);
    proof {
        let nvs = views_of(out@);
        assert(nvs =~= vs.insert(j as int, x@));
        // Sortedness: everything before the insertion point ranks no later
        // than the new entry, and the new entry no later than everything
        // after it.
        assert forall|p: int, q: int| 0 <= p < q < nvs.len() implies entry_le(nvs[p], nvs[q]) by {
            if p < j && q == j {
            } else if p == j && q == j + 1 {
                assert(entry_le(x@, vs[j as int]));
            } else if p == j && q > j + 1 {
                lemma_entry_le_trans(x@, vs[j as int], vs[q - 1]);
            } else if p < j && q > j {
                assert(entry_le(vs[p], vs[q - 1]));
            } else if p > j || q < j {
                assert(entry_le(vs[p - (if p > j { 1int } else { 0int })], vs[q - (if q > j {
                    1int
                } else {
                    0int
                })]));
            }
        }
        // Contents: removing the new entry from the result gives back the
        // old contents, so the multisets differ by exactly that entry.
        assert(nvs.remove(j as int) =~= vs);
        assert(nvs.to_multiset().remove(x@) =~= vs.to_multiset());
        assert(nvs.to_multiset().contains(x@));
        assert(nvs.to_multiset() =~= vs.to_multiset().insert(x@));
    }
}

/// Orders a listing deterministically: directories before files, names
/// ascending. The result holds exactly the given entries.
pub fn sort_entries(entries: Vec<Entry>) -> (r: Vec<Entry>)
    ensures
        sorted_entries(views_of(r@)),
        views_of(r@).to_multiset() == views_of(entries@).to_multiset(),
        r@.len() == entries@.len(),
{
    broadcast use vstd::seq_lib::group_to_multiset_ensures;

    let ghost total = views_of(entries@);
    let mut rest = entries;
    let mut out: Vec<Entry> = Vec::new();
    proof {
        assert(views_of(out@) =~= Seq::<EntryV>::empty());
        assert(views_of(out@).to_multiset().add(views_of(rest@).to_multiset())
            =~= total.to_multiset());
    }
    while rest.len() > 0
        invariant
            sorted_entries(views_of(out@)),
            views_of(out@).to_multiset().add(views_of(rest@).to_multiset())
                == total.to_multiset(),
            out@.len() + rest@.len() == total.len(),
        decreases rest.len(),
    {
        let ghost old_rest = views_of(rest@);
        let ghost old_out = views_of(out@);
        let x = rest.pop().unwrap();
        proof {
            broadcast use vstd::seq_lib::group_to_multiset_ensures;

            let n = old_rest.len() - 1;
            assert(views_of(rest@) =~= old_rest.remove(n));
            assert(x@ == old_rest[n]);
            assert(old_rest.remove(n).to_multiset() =~= old_rest.to_multiset().remove(
                old_rest[n],
            ));
            assert(old_rest.contains(x@));
            assert(old_rest.to_multiset().count(x@) > 0);
        }
        insert_sorted(&mut out, x);
        proof {
            broadcast use vstd::seq_lib::group_to_multiset_ensures;

            assert(views_of(out@).to_multiset() =~= old_out.to_multiset().insert(x@));
            assert(views_of(rest@).to_multiset() =~= old_rest.to_multiset().remove(x@));
            assert(views_of(out@).to_multiset().add(views_of(rest@).to_multiset())
                =~= total.to_multiset());
        }
    }
    proof {
        assert(views_of(rest@) =~= Seq::<EntryV>::empty());
        assert(views_of(out@).to_multiset().add(views_of(rest@).to_multiset())
            =~= views_of(out@).to_multiset());
    }
    out
}

} // verus!
