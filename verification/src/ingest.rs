//! Writing to both stores: the record store first, then the search index,
//! which follows as well as it can and can be rebuilt from the store.

use crate::listing::views;
use crate::search::{index_document, reindexed, SearchError, SearchIndex, MAX_TERM_BYTES};
use crate::storage::{is_listing, put_entry, Storage, StorageError, StoredSummary, StoredSummaryView};
use crate::summary::{Summary, SummaryView};
use vstd::multiset::Multiset;
use vstd::prelude::*;
use vstd::utf8::*;

verus! {

/// What became of the search index when a record was stored.
#[derive(Debug)]
pub enum Indexing {
    /// The record was indexed.
    Indexed,
    /// The index could not be opened or written; the record is stored all the same.
    Skipped(SearchError),
}

/// Why a rebuild of the index stopped.
#[derive(Debug)]
pub enum RebuildError {
    /// The records could not be listed.
    Store(StorageError),
    /// A record could not be indexed.
    Index(SearchError),
}

/// The documents after each of the records has been indexed, one after the other.
pub open spec fn reindexed_all(docs: Multiset<Seq<Seq<char>>>, records: Seq<StoredSummaryView>) -> Multiset<
    Seq<Seq<char>>,
>
    decreases records.len(),
{
    if records.len() == 0 {
        docs
    } else {
        reindexed(
            reindexed_all(docs, records.drop_last()),
            index_document(records.last().url, records.last().summary),
        )
    }
}

/// Whether the URL is too long to be indexed.
pub open spec fn is_too_long(url: Seq<char>) -> bool {
    encode_utf8(url).len() > MAX_TERM_BYTES
}

/// What indexing did, given the index as it was opened or as it failed to
/// open: `outcome` and the index `handle` that is left.
pub open spec fn indexing_done(
    index: Result<SearchIndex, SearchError>,
    url: Seq<char>,
    summary: SummaryView,
    outcome: Indexing,
    handle: Option<SearchIndex>,
) -> bool {
    match index {
        Ok(before) => handle matches Some(after) && after.wf() && (match outcome {
            Indexing::Indexed => !is_too_long(url) && after.docs() == reindexed(
                before.docs(),
                index_document(url, summary),
            ),
            Indexing::Skipped(SearchError::UrlTooLong) => is_too_long(url) && after.docs()
                == before.docs(),
            Indexing::Skipped(SearchError::Backend(_)) => !is_too_long(url),
            Indexing::Skipped(SearchError::QueryError(_)) => false,
        }),
        Err(given) => handle is None && outcome == Indexing::Skipped(given),
    }
}

/// Stores a summary and then indexes it. A failure of the store is the
/// failure of the whole, and the index is not touched. A failure of the
/// index is reported and leaves the stored record as it is: where the
/// index did not open, with the error of the opening; where the URL is too
/// long to be indexed, with the index unchanged; else with the error of
/// the index engine.
pub fn ingest_into(
    storage: &mut Storage,
    index: Result<SearchIndex, SearchError>,
    url: &str,
    summary: &Summary,
) -> (r: Result<(Indexing, Option<SearchIndex>), StorageError>)
    requires
        index matches Ok(ix) ==> ix.wf(),
    ensures
        old(storage).entries().dom().finite() ==> final(storage).entries().dom().finite(),
        match r {
            Ok((outcome, handle)) => {
                &&& exists|at: i64| #[trigger]
                    put_entry(old(storage).entries(), StoredSummaryView { url: url@, created_at: at, summary: summary@ }) == final(storage).entries()
                &&& indexing_done(index, url@, summary@, outcome, handle)
            },
            Err(e) => e is Backend,
        },
{
    match storage.store(url, summary) {
        Ok(()) => {},
        Err(e) => { return Err(e); },
    }
    match index {
        Ok(mut ix) => match ix.index_summary(url, summary) {
            Ok(()) => Ok((Indexing::Indexed, Some(ix))),
            Err(e) => Ok((Indexing::Skipped(e), Some(ix))),
        },
        Err(e) => Ok((Indexing::Skipped(e), None)),
    }
}

/// Stores a summary and then indexes it in the index of the directory
/// `index_path`, as well as that can be done. The index is opened before
/// the record is stored and written to after.
pub fn ingest(storage: &mut Storage, index_path: &str, url: &str, summary: &Summary) -> (r: Result<
    Indexing,
    StorageError,
>)
    ensures
        old(storage).entries().dom().finite() ==> final(storage).entries().dom().finite(),
        match r {
            Ok(outcome) => {
                &&& exists|at: i64| #[trigger]
                    put_entry(old(storage).entries(), StoredSummaryView { url: url@, created_at: at, summary: summary@ }) == final(storage).entries()
                &&& match outcome {
                    Indexing::Indexed => !is_too_long(url@),
                    Indexing::Skipped(SearchError::UrlTooLong) => is_too_long(url@),
                    Indexing::Skipped(SearchError::Backend(_)) => true,
                    Indexing::Skipped(SearchError::QueryError(_)) => false,
                }
            },
            Err(e) => e is Backend,
        },
{
    let index = SearchIndex::open(index_path);
    match ingest_into(storage, index, url, summary) {
        Ok((outcome, handle)) => {
            assert(indexing_done(index, url@, summary@, outcome, handle));
            Ok(outcome)
        },
        Err(e) => Err(e),
    }
}

/// Indexes the records one after the other. On success the result is their number.
pub fn index_records(index: &mut SearchIndex, records: &Vec<StoredSummary>) -> (r: Result<
    usize,
    SearchError,
>)
    requires
        old(index).wf(),
    ensures
        final(index).wf(),
        match r {
            Ok(n) => n == records@.len() && final(index).docs() == reindexed_all(
                old(index).docs(),
                views(records@),
            ),
            Err(e) => !(e is QueryError),
        },
{
    let mut i: usize = 0;
    proof {
        assert(views(records@).take(0) =~= Seq::<StoredSummaryView>::empty());
    }
    while i < records.len()
        invariant
            i <= records@.len(),
            index.wf(),
            index.docs() == reindexed_all(old(index).docs(), views(records@).take(i as int)),
        decreases records@.len() - i,
    {
        proof {
            let all = views(records@);
            assert(all.take(i + 1).drop_last() =~= all.take(i as int));
            assert(all.take(i + 1).last() == records@[i as int]@);
        }
        match index.index_summary(records[i].url.as_str(), &records[i].summary) {
            Ok(()) => {},
            Err(e) => { return Err(e); },
        }
        i = i + 1;
    }
    proof {
        assert(views(records@).take(records@.len() as int) =~= views(records@));
    }
    Ok(i)
}

/// Rebuilds the index from the store: every stored record is indexed
/// again, in the order of a listing. On success the result is the number
/// of records.
pub fn reindex_all(storage: &Storage, index: &mut SearchIndex) -> (r: Result<usize, RebuildError>)
    requires
        old(index).wf(),
    ensures
        final(index).wf(),
        match r {
            Ok(n) => exists|listing: Seq<StoredSummaryView>| #[trigger]
                is_listing(storage.entries(), listing) && n == listing.len() && final(index).docs() == reindexed_all(old(index).docs(), listing),
            Err(RebuildError::Store(e)) => !(e is NotFound) && final(index).docs() == old(index).docs(),
            Err(RebuildError::Index(e)) => !(e is QueryError),
        },
{
    let records = match storage.list_all() {
        Ok(records) => records,
        Err(e) => { return Err(RebuildError::Store(e)); },
    };
    match index_records(index, &records) {
        Ok(n) => {
            assert(is_listing(storage.entries(), views(records@)));
            Ok(n)
        },
        Err(e) => Err(RebuildError::Index(e)),
    }
}

} // verus!
