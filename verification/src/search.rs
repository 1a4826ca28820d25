//! Search by name over the catalog.
//!
//! An entry matches where its name begins with the query, letter case set
//! aside. An empty query matches nothing. All matches are returned, in the
//! catalog's order; the entries are tested in parallel.

use vstd::prelude::*;
use rayon::iter::{IntoParallelRefIterator, ParallelIterator};
use crate::catalog::{keeps_first_of_each_key, lemma_lookup_finds_each_entry, Catalog};
use crate::entry::FileEntry;
use crate::names::is_unsafe_name;
use crate::text::{chars_of, has_prefix, starts_with};

verus! {

/// The lower-case form of a text.
pub uninterp spec fn lowercase(text: Seq<char>) -> Seq<char>;

/// Calls `str::to_lowercase`. The contract gives the result its name and
/// states nothing else of it.
#[verifier::external_body]
fn fold_case(text: &str) -> (folded: String)
    ensures
        folded@ == lowercase(text@),
{
    text.to_lowercase()
}

/// The name, in lower case, begins with the query as folded before.
pub open spec fn name_matches(name: Seq<char>, folded_query: Seq<char>) -> bool {
    starts_with(lowercase(name), folded_query)
}

/// The test that a search with the folded query applies to each entry.
pub open spec fn match_test(folded_query: Seq<char>) -> spec_fn(FileEntry) -> bool {
    |entry: FileEntry| name_matches(entry.name@, folded_query)
}

/// What a search for `query` returns from `entries`.
pub open spec fn search_results(entries: Seq<FileEntry>, query: Seq<char>) -> Seq<FileEntry> {
    if query.len() == 0 {
        Seq::empty()
    } else {
        entries.filter(match_test(lowercase(query)))
    }
}

/// Whether a name that is already in lower case begins with a query that
/// is already in lower case.
pub fn folded_name_matches(folded_name: &str, folded_query: &Vec<char>) -> (hit: bool)
    ensures
        hit == starts_with(folded_name@, folded_query@),
{
    let chars = chars_of(folded_name);
    has_prefix(&chars, folded_query)
}

/// Whether the entry's name begins with the query, which is in lower case
/// already.
pub fn entry_matches(entry: &FileEntry, folded_query: &Vec<char>) -> (hit: bool)
    ensures
        hit == match_test(folded_query@)(*entry),
{
    let folded_name = fold_case(entry.name.as_str());
    folded_name_matches(folded_name.as_str(), folded_query)
}

/// Runs rayon's parallel iterator over the entries, keeps those that
/// `entry_matches` accepts, and collects copies of them into a vector. The
/// contract claims that the vector holds exactly the accepted entries, in
/// the order of `entries`, as rayon's collecting into a vector keeps it.
#[verifier::external_body]
fn filter_in_parallel(entries: &Vec<FileEntry>, folded_query: &Vec<char>) -> (hits: Vec<FileEntry>)
    ensures
        hits@ == entries@.filter(match_test(folded_query@)),
{
    entries.par_iter().filter(|entry| entry_matches(entry, folded_query)).cloned().collect()
}

impl Catalog {
    /// The entries whose names begin with `query`, letter case set aside;
    /// none for an empty query.
    pub fn search(&self, query: &str) -> (hits: Vec<FileEntry>)
        ensures
            hits@ == search_results(self@, query@),
            query@.len() == 0 ==> hits@.len() == 0,
    {
        if query.unicode_len() == 0 {
            return Vec::new();
        }
        let folded = fold_case(query);
        let folded_query = chars_of(folded.as_str());
        filter_in_parallel(self.entries(), &folded_query)
    }
}

/// Every entry that a search returns is an entry of the catalog, and its
/// name matches the query.
pub proof fn lemma_hits_are_entries(entries: Seq<FileEntry>, query: Seq<char>, at: int)
    requires
        0 <= at < search_results(entries, query).len(),
    ensures
        entries.contains(search_results(entries, query)[at]),
        name_matches(search_results(entries, query)[at].name@, lowercase(query)),
        query.len() > 0,
{
    broadcast use vstd::seq_lib::group_filter_ensures;

    let test = match_test(lowercase(query));
    assert(test(entries.filter(test)[at]));
    lemma_filter_within(entries, test, at);
}

/// Every entry of the catalog whose name matches a query that is not
/// empty is returned by the search for it.
pub proof fn lemma_matching_entries_are_hits(entries: Seq<FileEntry>, query: Seq<char>, at: int)
    requires
        0 <= at < entries.len(),
        query.len() > 0,
        name_matches(entries[at].name@, lowercase(query)),
    ensures
        search_results(entries, query).contains(entries[at]),
{
    broadcast use vstd::seq_lib::group_filter_ensures;

    let test = match_test(lowercase(query));
    assert(test(entries[at]));
    assert(entries.filter(test).contains(entries[at]));
}

/// A name that the index refuses is never found: where none of the entries
/// that a catalog was built from has such a name, no search returns one,
/// whatever the query.
pub proof fn lemma_refused_names_never_found(
    catalog: Catalog,
    given: Seq<FileEntry>,
    query: Seq<char>,
    at: int,
)
    requires
        keeps_first_of_each_key(catalog@, given),
        forall|i: int| 0 <= i < given.len() ==> !is_unsafe_name((#[trigger] given[i]).name@),
        0 <= at < search_results(catalog@, query).len(),
    ensures
        !is_unsafe_name(search_results(catalog@, query)[at].name@),
{
    let hit = search_results(catalog@, query)[at];
    lemma_hits_are_entries(catalog@, query, at);
    let k = choose|k: int| 0 <= k < catalog@.len() && catalog@[k] == hit;
    assert(given.contains(catalog@[k]));
    let i = choose|i: int| 0 <= i < given.len() && given[i] == hit;
    assert(!is_unsafe_name(given[i].name@));
}

/// What a search returns is found again by its own key: a lookup of a
/// hit's key answers with the hit, so its path is its own.
pub proof fn lemma_hits_are_found_by_key(catalog: Catalog, query: Seq<char>, at: int)
    requires
        catalog.wf(),
        0 <= at < search_results(catalog@, query).len(),
    ensures
        catalog.lookup(
            search_results(catalog@, query)[at].drive_idx,
            search_results(catalog@, query)[at].id,
        ) == Some(search_results(catalog@, query)[at]),
{
    let hit = search_results(catalog@, query)[at];
    lemma_hits_are_entries(catalog@, query, at);
    let k = choose|k: int| 0 <= k < catalog@.len() && catalog@[k] == hit;
    lemma_lookup_finds_each_entry(catalog, k);
}

/// What a filter keeps was there before.
pub proof fn lemma_filter_within(s: Seq<FileEntry>, test: spec_fn(FileEntry) -> bool, at: int)
    requires
        0 <= at < s.filter(test).len(),
    ensures
        s.contains(s.filter(test)[at]),
    decreases s.len(),
{
    reveal(Seq::filter);
    if s.len() > 0 {
        let front = s.drop_last();
        let kept = front.filter(test);
        if test(s.last()) && at == kept.len() {
            assert(s[s.len() - 1] == s.filter(test)[at]);
        } else {
            lemma_filter_within(front, test, at);
            let j = choose|j: int| 0 <= j < front.len() && front[j] == kept[at];
            assert(s[j] == s.filter(test)[at]);
        }
    }
}

} // verus!
