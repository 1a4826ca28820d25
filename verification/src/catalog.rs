//! The catalog: all entries of all scanned volumes, ordered by volume and
//! file reference number, so that an entry is found by bisection.
//!
//! The catalog holds one entry for each key. Where a journal reports one
//! file reference number more than once, the entry that was reported first
//! is kept and the later ones are dropped.

use vstd::prelude::*;
use rayon::slice::ParallelSliceMut;
use crate::entry::{entries_with_key, sorted_by_key, FileEntry};

verus! {

/// The first entry of `s` with the key `(drive_idx, id)`, if there is one.
pub open spec fn first_with_key(s: Seq<FileEntry>, drive_idx: u8, id: u64) -> Option<FileEntry> {
    let found = entries_with_key(s, drive_idx, id);
    if found.len() > 0 {
        Some(found[0])
    } else {
        None
    }
}

/// `sorted` holds the entries of `given`, ordered by key, and those of one
/// key in the order in which `given` holds them.
pub open spec fn is_stable_sort_of(sorted: Seq<FileEntry>, given: Seq<FileEntry>) -> bool {
    &&& sorted.len() == given.len()
    &&& sorted_by_key(sorted)
    &&& forall|drive_idx: u8, id: u64|
        entries_with_key(sorted, drive_idx, id) == entries_with_key(given, drive_idx, id)
}

/// Calls rayon's `par_sort_by_key` with `FileEntry::key` as the key, a pair
/// that is ordered by its first part and then by its second. The contract
/// claims what rayon documents of it: the slice is sorted by the key, and
/// the sort is stable, so entries of equal keys keep their order.
#[verifier::external_body]
fn sort_by_key_stable(entries: &mut Vec<FileEntry>)
    ensures
        is_stable_sort_of(final(entries)@, old(entries)@),
{
    entries.par_sort_by_key(|entry| entry.key());
}

/// No two entries of `s` share a key.
pub open spec fn no_repeated_key(s: Seq<FileEntry>) -> bool {
    forall|i: int, j: int|
        0 <= i < j < s.len() ==> !(#[trigger] s[i]).has_key((#[trigger] s[j]).drive_idx, s[j].id)
}

/// The entries of `s` without those whose predecessor in `s` has their key:
/// of each run of entries with one key, the first.
pub open spec fn first_of_each_run(s: Seq<FileEntry>) -> Seq<FileEntry>
    decreases s.len(),
{
    if s.len() == 0 {
        Seq::empty()
    } else if s.len() > 1 && s[s.len() - 2].has_key(s.last().drive_idx, s.last().id) {
        first_of_each_run(s.drop_last())
    } else {
        first_of_each_run(s.drop_last()).push(s.last())
    }
}

/// `kept` holds, for each key, the entry of `given` that comes first with
/// that key, and nothing that `given` does not hold.
pub open spec fn keeps_first_of_each_key(kept: Seq<FileEntry>, given: Seq<FileEntry>) -> bool {
    &&& forall|drive_idx: u8, id: u64| #[trigger]
        first_with_key(kept, drive_idx, id) == first_with_key(given, drive_idx, id)
    &&& forall|i: int| 0 <= i < kept.len() ==> given.contains(#[trigger] kept[i])
}

/// Drops every entry whose predecessor has its key.
fn keep_first_of_each_run(sorted: Vec<FileEntry>) -> (kept: Vec<FileEntry>)
    ensures
        kept@ == first_of_each_run(sorted@),
{
    broadcast use vstd::std_specs::vec::axiom_spec_into_iter;

    let ghost given = sorted@;
    let mut kept: Vec<FileEntry> = Vec::new();
    let mut previous: Option<(u8, u64)> = None;
    proof {
        assert(given.take(0) =~= Seq::<FileEntry>::empty());
    }
    for entry in iter: sorted.into_iter()
        invariant
            iter.seq() == given,
            kept@ == first_of_each_run(given.take(iter.index() as int)),
            previous is Some <==> iter.index() > 0,
            previous matches Some(key) ==> key == (
                given[iter.index() - 1].drive_idx,
                given[iter.index() - 1].id,
            ),
    {
        let ghost seen = iter.index() as int;
        let key = entry.key();
        let repeated = match previous {
            Some(before) => before.0 == key.0 && before.1 == key.1,
            None => false,
        };
        proof {
            assert(entry == given[seen]);
            assert(given.take(seen + 1).drop_last() =~= given.take(seen));
            assert(given.take(seen + 1).last() == given[seen]);
            if seen > 0 {
                assert(given.take(seen + 1)[seen - 1] == given[seen - 1]);
            }
        }
        if !repeated {
            kept.push(entry);
        }
        previous = Some(key);
    }
    proof {
        assert(given.take(given.len() as int) =~= given);
    }
    kept
}

/// The entries of a finished scan, in key order, one for each key.
pub struct Catalog {
    entries: Vec<FileEntry>,
}

impl View for Catalog {
    type V = Seq<FileEntry>;

    closed spec fn view(&self) -> Seq<FileEntry> {
        self.entries@
    }
}

impl Catalog {
    /// The entries stand in key order, and no two of them share a key.
    pub open spec fn wf(&self) -> bool {
        &&& sorted_by_key(self@)
        &&& no_repeated_key(self@)
    }

    /// The entry that a lookup of `(drive_idx, id)` answers with.
    pub open spec fn lookup(&self, drive_idx: u8, id: u64) -> Option<FileEntry> {
        first_with_key(self@, drive_idx, id)
    }

    /// A catalog without entries.
    pub fn new() -> (catalog: Catalog)
        ensures
            catalog.wf(),
            catalog@.len() == 0,
    {
        Catalog { entries: Vec::new() }
    }

    /// Orders the entries of a scan into a catalog. Of the entries that
    /// share a key, the one that comes first in `entries` is kept.
    pub fn build(entries: Vec<FileEntry>) -> (catalog: Catalog)
        ensures
            catalog.wf(),
            forall|drive_idx: u8, id: u64| #[trigger]
                catalog.lookup(drive_idx, id) == first_with_key(entries@, drive_idx, id),
            forall|i: int| 0 <= i < catalog@.len() ==> entries@.contains(#[trigger] catalog@[i]),
            keeps_first_of_each_key(catalog@, entries@),
            catalog@.len() <= entries@.len(),
    {
        let ghost given = entries@;
        let mut sorted = entries;
        sort_by_key_stable(&mut sorted);
        let ghost ordered = sorted@;
        let kept = keep_first_of_each_run(sorted);
        proof {
            lemma_first_of_each_run_ordered(ordered);
            lemma_first_of_each_run_within(ordered);
            assert forall|drive_idx: u8, id: u64| #[trigger]
                first_with_key(kept@, drive_idx, id) == first_with_key(
                    given,
                    drive_idx,
                    id,
                ) by {
                lemma_first_of_each_run_lookup(ordered, drive_idx, id);
            }
            assert forall|i: int| 0 <= i < kept@.len() implies given.contains(
                #[trigger] kept@[i],
            ) by {
                lemma_sort_keeps_entries(ordered, given, kept@[i]);
            }
        }
        Catalog { entries: kept }
    }

    /// Number of entries.
    pub fn len(&self) -> (n: usize)
        ensures
            n == self@.len(),
    {
        self.entries.len()
    }

    /// The entries, in key order.
    pub fn entries(&self) -> (entries: &Vec<FileEntry>)
        ensures
            entries@ == self@,
    {
        &self.entries
    }

    /// Position of the first entry with the key `(drive_idx, id)`.
    pub fn find(&self, drive_idx: u8, id: u64) -> (position: Option<usize>)
        requires
            self.wf(),
        ensures
            match position {
                Some(i) => {
                    &&& i < self@.len()
                    &&& self@[i as int].has_key(drive_idx, id)
                    &&& forall|j: int| 0 <= j < i ==> !self@[j].has_key(drive_idx, id)
                    &&& self.lookup(drive_idx, id) == Some(self@[i as int])
                },
                None => {
                    &&& forall|j: int| 0 <= j < self@.len() ==> !self@[j].has_key(drive_idx, id)
                    &&& self.lookup(drive_idx, id) is None
                },
            },
    {
        let mut lo: usize = 0;
        let mut hi: usize = self.entries.len();
        while lo < hi
            invariant
                self.wf(),
                lo <= hi <= self.entries@.len(),
                forall|j: int| 0 <= j < lo ==> (#[trigger] self.entries@[j]).is_before(drive_idx, id),
                forall|j: int|
                    hi <= j < self.entries@.len() ==> !(#[trigger] self.entries@[j]).is_before(
                        drive_idx,
                        id,
                    ),
            decreases hi - lo,
        {
            let mid: usize = lo + (hi - lo) / 2;
            if self.entries[mid].key_before(drive_idx, id) {
                proof {
                    assert forall|j: int| 0 <= j < mid + 1 implies (#[trigger] self.entries@[j]).is_before(
                        drive_idx,
                        id,
                    ) by {
                        assert(self.entries@[j].not_after(self.entries@[mid as int]));
                    }
                }
                lo = mid + 1;
            } else {
                proof {
                    assert forall|j: int| mid <= j < self.entries@.len() implies !(
                    #[trigger] self.entries@[j]).is_before(drive_idx, id) by {
                        assert(self.entries@[mid as int].not_after(self.entries@[j]));
                    }
                }
                hi = mid;
            }
        }
        if lo < self.entries.len() && self.entries[lo].drive_idx == drive_idx && self.entries[lo].id
            == id {
            proof {
                assert forall|j: int| 0 <= j < lo implies !self@[j].has_key(drive_idx, id) by {
                    assert(self.entries@[j].is_before(drive_idx, id));
                }
                lemma_first_with_key(self@, drive_idx, id, lo as int);
            }
            Some(lo)
        } else {
            proof {
                assert forall|j: int| 0 <= j < self@.len() implies !self@[j].has_key(
                    drive_idx,
                    id,
                ) by {
                    if j < lo {
                        assert(self.entries@[j].is_before(drive_idx, id));
                    } else {
                        assert(!self.entries@[lo as int].is_before(drive_idx, id));
                        assert(self.entries@[lo as int].not_after(self.entries@[j]));
                    }
                }
                lemma_none_with_key(self@, drive_idx, id);
            }
            None
        }
    }

    /// The first entry with the key `(drive_idx, id)`.
    pub fn get(&self, drive_idx: u8, id: u64) -> (entry: Option<&FileEntry>)
        requires
            self.wf(),
        ensures
            match entry {
                Some(e) => self.lookup(drive_idx, id) == Some(*e),
                None => self.lookup(drive_idx, id) is None,
            },
    {
        match self.find(drive_idx, id) {
            Some(i) => Some(&self.entries[i]),
            None => None,
        }
    }
}

/// Where `s[at]` has the key and no entry before it has, it is the first
/// entry with the key.
pub proof fn lemma_first_with_key(s: Seq<FileEntry>, drive_idx: u8, id: u64, at: int)
    requires
        0 <= at < s.len(),
        s[at].has_key(drive_idx, id),
        forall|j: int| 0 <= j < at ==> !s[j].has_key(drive_idx, id),
    ensures
        first_with_key(s, drive_idx, id) == Some(s[at]),
    decreases s.len(),
{
    let front = s.drop_last();
    if at == s.len() - 1 {
        lemma_none_with_key(front, drive_idx, id);
    } else {
        lemma_first_with_key(front, drive_idx, id, at);
    }
}

/// Where no entry of `s` has the key, none is found.
pub proof fn lemma_none_with_key(s: Seq<FileEntry>, drive_idx: u8, id: u64)
    requires
        forall|j: int| 0 <= j < s.len() ==> !s[j].has_key(drive_idx, id),
    ensures
        entries_with_key(s, drive_idx, id).len() == 0,
        first_with_key(s, drive_idx, id) is None,
    decreases s.len(),
{
    if s.len() > 0 {
        lemma_none_with_key(s.drop_last(), drive_idx, id);
    }
}

/// Every entry of `s` that has the key is among the entries found for it.
pub proof fn lemma_with_key_holds(s: Seq<FileEntry>, drive_idx: u8, id: u64, at: int)
    requires
        0 <= at < s.len(),
        s[at].has_key(drive_idx, id),
    ensures
        entries_with_key(s, drive_idx, id).contains(s[at]),
    decreases s.len(),
{
    let found = entries_with_key(s, drive_idx, id);
    if at == s.len() - 1 {
        assert(found[found.len() - 1] == s[at]);
    } else {
        lemma_with_key_holds(s.drop_last(), drive_idx, id, at);
        let inner = entries_with_key(s.drop_last(), drive_idx, id);
        let k = choose|k: int| 0 <= k < inner.len() && inner[k] == s[at];
        assert(found[k] == s[at]);
    }
}

/// Every entry found for a key is an entry of `s`, and has the key.
pub proof fn lemma_with_key_within(s: Seq<FileEntry>, drive_idx: u8, id: u64, entry: FileEntry)
    requires
        entries_with_key(s, drive_idx, id).contains(entry),
    ensures
        s.contains(entry),
        entry.has_key(drive_idx, id),
    decreases s.len(),
{
    let found = entries_with_key(s, drive_idx, id);
    let k = choose|k: int| 0 <= k < found.len() && found[k] == entry;
    if s.len() > 0 {
        let inner = entries_with_key(s.drop_last(), drive_idx, id);
        if s.last().has_key(drive_idx, id) && k == found.len() - 1 {
            assert(s[s.len() - 1] == entry);
        } else {
            assert(inner[k] == entry);
            lemma_with_key_within(s.drop_last(), drive_idx, id, entry);
            let j = choose|j: int| 0 <= j < s.drop_last().len() && s.drop_last()[j] == entry;
            assert(s[j] == entry);
        }
    }
}

/// Sorting neither adds an entry nor drops one: the sorted sequence and the
/// given one hold the same entries.
pub proof fn lemma_sort_keeps_entries(sorted: Seq<FileEntry>, given: Seq<FileEntry>, entry: FileEntry)
    requires
        is_stable_sort_of(sorted, given),
    ensures
        sorted.contains(entry) <==> given.contains(entry),
{
    if sorted.contains(entry) {
        let i = choose|i: int| 0 <= i < sorted.len() && sorted[i] == entry;
        lemma_with_key_holds(sorted, entry.drive_idx, entry.id, i);
        lemma_with_key_within(given, entry.drive_idx, entry.id, entry);
    }
    if given.contains(entry) {
        let i = choose|i: int| 0 <= i < given.len() && given[i] == entry;
        lemma_with_key_holds(given, entry.drive_idx, entry.id, i);
        lemma_with_key_within(sorted, entry.drive_idx, entry.id, entry);
    }
}

/// What is left of `s` when the later entries of each run are dropped was
/// in `s`, and is no longer than `s`.
pub proof fn lemma_first_of_each_run_within(s: Seq<FileEntry>)
    ensures
        first_of_each_run(s).len() <= s.len(),
        forall|i: int|
            0 <= i < first_of_each_run(s).len() ==> s.contains(#[trigger] first_of_each_run(s)[i]),
    decreases s.len(),
{
    if s.len() > 0 {
        let front = s.drop_last();
        let kept = first_of_each_run(front);
        let all = first_of_each_run(s);
        lemma_first_of_each_run_within(front);
        assert forall|i: int| 0 <= i < all.len() implies s.contains(#[trigger] all[i]) by {
            if i < kept.len() {
                assert(all[i] == kept[i]);
                let j = choose|j: int| 0 <= j < front.len() && front[j] == kept[i];
                assert(s[j] == all[i]);
            } else {
                assert(s[s.len() - 1] == all[i]);
            }
        }
    }
}

/// Where `s` stands in key order, what is left when the later entries of
/// each run are dropped stands in key order too, and no two of its entries
/// share a key.
pub proof fn lemma_first_of_each_run_ordered(s: Seq<FileEntry>)
    requires
        sorted_by_key(s),
    ensures
        sorted_by_key(first_of_each_run(s)),
        no_repeated_key(first_of_each_run(s)),
    decreases s.len(),
{
    if s.len() > 0 {
        let front = s.drop_last();
        let last = s.last();
        let kept = first_of_each_run(front);
        let all = first_of_each_run(s);
        assert(sorted_by_key(front)) by {
            assert forall|i: int, j: int| 0 <= i <= j < front.len() implies (#[trigger] front[i]).not_after(
                #[trigger] front[j],
            ) by {
                assert(s[i].not_after(s[j]));
            }
        }
        lemma_first_of_each_run_ordered(front);
        lemma_first_of_each_run_within(front);
        if !(s.len() > 1 && s[s.len() - 2].has_key(last.drive_idx, last.id)) {
            assert forall|i: int| 0 <= i < kept.len() implies {
                &&& (#[trigger] kept[i]).not_after(last)
                &&& !kept[i].has_key(last.drive_idx, last.id)
            } by {
                let k = choose|k: int| 0 <= k < front.len() && front[k] == kept[i];
                assert(s[k].not_after(s[s.len() - 2]));
                assert(s[s.len() - 2].not_after(s[s.len() - 1]));
            }
            assert forall|i: int, j: int| 0 <= i <= j < all.len() implies (#[trigger] all[i]).not_after(
                #[trigger] all[j],
            ) by {
                if j < kept.len() {
                    assert(kept[i].not_after(kept[j]));
                } else if i < kept.len() {
                    assert(kept[i].not_after(last));
                }
            }
            assert forall|i: int, j: int| 0 <= i < j < all.len() implies !(#[trigger] all[i]).has_key(
                (#[trigger] all[j]).drive_idx,
                all[j].id,
            ) by {
                if j < kept.len() {
                    assert(!kept[i].has_key(kept[j].drive_idx, kept[j].id));
                } else {
                    assert(!kept[i].has_key(last.drive_idx, last.id));
                }
            }
        }
    }
}

/// Where `s` stands in key order, dropping the later entries of each run
/// changes no lookup: the first entry of each key stays.
pub proof fn lemma_first_of_each_run_lookup(s: Seq<FileEntry>, drive_idx: u8, id: u64)
    requires
        sorted_by_key(s),
    ensures
        first_with_key(first_of_each_run(s), drive_idx, id) == first_with_key(s, drive_idx, id),
    decreases s.len(),
{
    if s.len() > 0 {
        let front = s.drop_last();
        let last = s.last();
        let kept = first_of_each_run(front);
        let all = first_of_each_run(s);
        assert(sorted_by_key(front)) by {
            assert forall|i: int, j: int| 0 <= i <= j < front.len() implies (#[trigger] front[i]).not_after(
                #[trigger] front[j],
            ) by {
                assert(s[i].not_after(s[j]));
            }
        }
        lemma_first_of_each_run_lookup(front, drive_idx, id);
        if s.len() > 1 && s[s.len() - 2].has_key(last.drive_idx, last.id) {
            if last.has_key(drive_idx, id) {
                assert(front[front.len() - 1] == s[s.len() - 2]);
                lemma_with_key_holds(front, drive_idx, id, front.len() - 1);
            }
        } else {
            assert(all.drop_last() =~= kept);
            assert(all.last() == last);
            if last.has_key(drive_idx, id) {
                assert forall|j: int| 0 <= j < front.len() implies !front[j].has_key(
                    drive_idx,
                    id,
                ) by {
                    assert(s[j].not_after(s[s.len() - 2]));
                    assert(s[s.len() - 2].not_after(s[s.len() - 1]));
                }
                lemma_none_with_key(front, drive_idx, id);
            }
        }
    }
}

/// A lookup by the key of a given entry answers with the first given entry
/// of that key: with the entry itself, where no earlier one shares its key.
pub proof fn lemma_lookup_round_trip(catalog: Catalog, given: Seq<FileEntry>, at: int)
    requires
        keeps_first_of_each_key(catalog@, given),
        0 <= at < given.len(),
        forall|j: int| 0 <= j < at ==> !given[j].has_key(given[at].drive_idx, given[at].id),
    ensures
        catalog.lookup(given[at].drive_idx, given[at].id) == Some(given[at]),
{
    lemma_first_with_key(given, given[at].drive_idx, given[at].id, at);
    assert(first_with_key(catalog@, given[at].drive_idx, given[at].id) == first_with_key(
        given,
        given[at].drive_idx,
        given[at].id,
    ));
}

/// A lookup by the key of any entry of a catalog answers with that entry.
pub proof fn lemma_lookup_finds_each_entry(catalog: Catalog, at: int)
    requires
        catalog.wf(),
        0 <= at < catalog@.len(),
    ensures
        catalog.lookup(catalog@[at].drive_idx, catalog@[at].id) == Some(catalog@[at]),
{
    assert forall|j: int| 0 <= j < at implies !catalog@[j].has_key(
        catalog@[at].drive_idx,
        catalog@[at].id,
    ) by {
        assert(!(catalog@[j]).has_key((catalog@[at]).drive_idx, catalog@[at].id));
    }
    lemma_first_with_key(catalog@, catalog@[at].drive_idx, catalog@[at].id, at);
}

} // verus!
