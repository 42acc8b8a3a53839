//! Building the ordered listing of one directory's children.

use vstd::prelude::*;
use crate::entries::{classifiable, classify, spec_display_name, spec_entry, Entry, EntryV,
    RawEntry, RawEntryV};
use crate::paths::RootConfig;
use crate::sorting::{sort_entries, sorted_entries, views_of};

verus! {

/// The views of a run of raw children.
pub open spec fn raw_views_of(s: Seq<RawEntry>) -> Seq<RawEntryV> {
    s.map_values(|r: RawEntry| r@)
}

/// The entries classification yields for a run of raw children, in reading
/// order: one entry per classifiable child.
pub open spec fn spec_listing_entries(raws: Seq<RawEntryV>, root: Seq<Seq<char>>) -> Seq<EntryV>
    decreases raws.len(),
{
    if raws.len() == 0 {
        Seq::empty()
    } else {
        let rest = spec_listing_entries(raws.drop_last(), root);
        if classifiable(raws.last(), root) {
            rest.push(spec_entry(raws.last(), root.len() as int))
        } else {
            rest
        }
    }
}

/// The display names of the children classification fails closed on, in
/// reading order.
pub open spec fn spec_listing_failures(raws: Seq<RawEntryV>, root: Seq<Seq<char>>) -> Seq<
    Seq<char>,
>
    decreases raws.len(),
{
    if raws.len() == 0 {
        Seq::empty()
    } else {
        let rest = spec_listing_failures(raws.drop_last(), root);
        if classifiable(raws.last(), root) {
            rest
        } else {
            rest.push(spec_display_name(raws.last().name))
        }
    }
}

/// One directory's children, ordered for presentation. Built fresh per
/// request and never mutated afterwards.
pub struct Listing {
    /// The classified children: directories before files, display names
    /// ascending.
    pub entries: Vec<Entry>,
    /// The display names of children that could not be classified (an
    /// indeterminate file type, or a path outside the root): each is
    /// surfaced rather than silently mislabelled, and the listing goes on
    /// without it.
    pub failures: Vec<String>,
}

/// Classifies every raw child and orders the result.
///
/// Every child the operating system reported is accounted for: it appears
/// either among the entries or among the per-child failures, never both and
/// never silently dropped.
pub fn build_listing(raws: &Vec<RawEntry>, root: &RootConfig) -> (l: Listing)
    ensures
        sorted_entries(views_of(l.entries@)),
        views_of(l.entries@).to_multiset() == spec_listing_entries(
            raw_views_of(raws@),
            root.components_view(),
        ).to_multiset(),
        l.failures.deep_view() == spec_listing_failures(raw_views_of(raws@), root.components_view()),
        l.entries@.len() + l.failures@.len() == raws@.len(),
{
    let ghost rv = raw_views_of(raws@);
    let ghost rc = root.components_view();
    let mut entries: Vec<Entry> = Vec::new();
    let mut failures: Vec<String> = Vec::new();
    let mut i: usize = 0;
    proof {
        assert(rv.take(0) =~= Seq::<RawEntryV>::empty());
        assert(views_of(entries@) =~= Seq::<EntryV>::empty());
        assert(failures.deep_view() =~= Seq::<Seq<char>>::empty());
    }
    while i < raws.len()
        invariant
            i <= raws.len(),
            rv == raw_views_of(raws@),
            rc == root.components_view(),
            rv.len() == raws@.len(),
            views_of(entries@) == spec_listing_entries(rv.take(i as int), rc),
            failures.deep_view() == spec_listing_failures(rv.take(i as int), rc),
            entries@.len() + failures@.len() == i,
        decreases raws.len() - i,
    {
        let ghost old_entries = views_of(entries@);
        let ghost old_failures = failures.deep_view();
        match classify(&raws[i], root) {
            Ok(e) => {
                entries.push(e);
                proof {
                    assert(views_of(entries@) =~= old_entries.push(e@));
                }
            },
            Err(n) => {
                failures.push(n);
                proof {
                    assert(failures.deep_view() =~= old_failures.push(n@));
                }
            },
        }
        proof {
            assert(rv.take(i + 1 as int).drop_last() =~= rv.take(i as int));
            assert(rv.take(i + 1 as int).last() == rv[i as int]);
        }
        i += 1;
    }
    proof {
        assert(rv.take(raws@.len() as int) =~= rv);
    }
    let entries = sort_entries(entries);
    Listing { entries, failures }
}

/// Each produced entry is the classification of one of the raw children the
/// listing was built from.
pub proof fn lemma_listing_entry_from_raws(raws: Seq<RawEntryV>, root: Seq<Seq<char>>, e: EntryV)
    requires
        spec_listing_entries(raws, root).contains(e),
    ensures
        exists|i: int|
            0 <= i < raws.len() && classifiable(#[trigger] raws[i], root) && e == spec_entry(
                raws[i],
                root.len() as int,
            ),
    decreases raws.len(),
{
    let s = spec_listing_entries(raws, root);
    let rest = spec_listing_entries(raws.drop_last(), root);
    if classifiable(raws.last(), root) && e == spec_entry(raws.last(), root.len() as int) {
        assert(raws[raws.len() - 1] == raws.last());
    } else {
        assert(rest.contains(e)) by {
            let k = choose|k: int| 0 <= k < s.len() && s[k] == e;
            if classifiable(raws.last(), root) {
                assert(s == rest.push(spec_entry(raws.last(), root.len() as int)));
                assert(k < rest.len());
                assert(rest[k] == e);
            }
        }
        lemma_listing_entry_from_raws(raws.drop_last(), root, e);
        let i = choose|i: int|
            0 <= i < raws.drop_last().len() && classifiable(#[trigger] raws.drop_last()[i], root)
                && e == spec_entry(raws.drop_last()[i], root.len() as int);
        assert(raws.drop_last()[i] == raws[i]);
    }
}

/// Concurrency isolation: a listing whose contents are those classified
/// from a given run of raw children holds no entry from anywhere else —
/// each of its entries is the classification of one of those children, so
/// concurrent listings of disjoint directories cannot contaminate each
/// other.
pub proof fn lemma_listing_isolation(
    produced: Seq<EntryV>,
    raws: Seq<RawEntryV>,
    root: Seq<Seq<char>>,
)
    requires
        produced.to_multiset() == spec_listing_entries(raws, root).to_multiset(),
    ensures
        forall|k: int|
            0 <= k < produced.len() ==> exists|i: int|
                0 <= i < raws.len() && classifiable(#[trigger] raws[i], root) && #[trigger]
                produced[k] == spec_entry(raws[i], root.len() as int),
{
    broadcast use vstd::seq_lib::group_to_multiset_ensures;

    assert forall|k: int| 0 <= k < produced.len() implies exists|i: int|
        0 <= i < raws.len() && classifiable(#[trigger] raws[i], root) && #[trigger] produced[k]
            == spec_entry(raws[i], root.len() as int) by {
        assert(produced.contains(produced[k]));
        assert(produced.to_multiset().count(produced[k]) > 0);
        assert(spec_listing_entries(raws, root).to_multiset().count(produced[k]) > 0);
        assert(spec_listing_entries(raws, root).contains(produced[k]));
        lemma_listing_entry_from_raws(raws, root, produced[k]);
    }
}

} // verus!
