//! Answering a query from the best source at hand: the search index where
//! it can be opened and finds something, and otherwise a scan of the record
//! store for records that mention the query.

use crate::listing::views;
use crate::search::{is_hit_list, is_query, SearchError, SearchIndex};
use crate::storage::{is_listing, is_unreadable_at, key_label, Storage, StorageError, StoredSummary, StoredSummaryView};
use crate::summary::texts;
use crate::text::{chars_of, contains_chars, occurs_in};
use vstd::prelude::*;
use vstd::string::*;

verus! {

/// The lower-case form of a text, as the standard library's
/// `str::to_lowercase` gives it.
pub uninterp spec fn lowercase(text: Seq<char>) -> Seq<char>;

/// `str::to_lowercase` of the standard library. The result follows from the
/// text alone: the mapping is Unicode's and does not depend on a locale.
#[verifier::external_body]
fn to_lower(text: &str) -> (lower: String)
    ensures
        lower@ == lowercase(text@),
{
    text.to_lowercase()
}

/// `text` mentions `query`: the query stands in the text when both are put in lower case.
pub open spec fn mentions(text: Seq<char>, query: Seq<char>) -> bool {
    occurs_in(lowercase(query), lowercase(text))
}

/// One of `list` mentions `query`.
pub open spec fn any_mentions(list: Seq<Seq<char>>, query: Seq<char>) -> bool {
    exists|i: int| 0 <= i < list.len() && mentions(#[trigger] list[i], query)
}

/// A record mentions `query` in its title, its conclusion, a key point or an entity.
pub open spec fn record_mentions(record: StoredSummaryView, query: Seq<char>) -> bool {
    ||| mentions(record.summary.title, query)
    ||| mentions(record.summary.conclusion, query)
    ||| any_mentions(record.summary.key_points, query)
    ||| any_mentions(record.summary.entities, query)
}

/// The records that mention `query`.
pub open spec fn mentioning(query: Seq<char>) -> spec_fn(StoredSummaryView) -> bool {
    |record: StoredSummaryView| record_mentions(record, query)
}

/// The URLs of the records that mention `query`, in the order of the records.
pub open spec fn scan_urls(records: Seq<StoredSummaryView>, query: Seq<char>) -> Seq<Seq<char>> {
    records.filter(mentioning(query)).map_values(|record: StoredSummaryView| record.url)
}

/// Whether `text` mentions the query whose lower-case form is `needle`.
fn text_mentions(text: &str, needle: &Vec<char>, Ghost(query): Ghost<Seq<char>>) -> (b: bool)
    requires
        needle@ == lowercase(query),
    ensures
        b == mentions(text@, query),
{
    let lower = to_lower(text);
    let hay = chars_of(lower.as_str());
    contains_chars(&hay, needle)
}

fn list_mentions(list: &Vec<String>, needle: &Vec<char>, Ghost(query): Ghost<Seq<char>>) -> (b: bool)
    requires
        needle@ == lowercase(query),
    ensures
        b == any_mentions(texts(list@), query),
{
    let mut i: usize = 0;
    while i < list.len()
        invariant
            i <= list@.len(),
            needle@ == lowercase(query),
            forall|k: int| 0 <= k < i ==> !mentions(#[trigger] texts(list@)[k], query),
        decreases list@.len() - i,
    {
        if text_mentions(list[i].as_str(), needle, Ghost(query)) {
            assert(mentions(texts(list@)[i as int], query));
            return true;
        }
        i = i + 1;
    }
    false
}

/// Whether the record mentions `query`.
pub fn record_matches(record: &StoredSummary, query: &str) -> (b: bool)
    ensures
        b == record_mentions(record@, query@),
{
    let lower = to_lower(query);
    let needle = chars_of(lower.as_str());
    matches_needle(record, &needle, Ghost(query@))
}

fn matches_needle(record: &StoredSummary, needle: &Vec<char>, Ghost(query): Ghost<Seq<char>>) -> (b:
    bool)
    requires
        needle@ == lowercase(query),
    ensures
        b == record_mentions(record@, query),
{
    text_mentions(record.summary.title.as_str(), needle, Ghost(query)) || text_mentions(
        record.summary.conclusion.as_str(),
        needle,
        Ghost(query),
    ) || list_mentions(&record.summary.key_points, needle, Ghost(query)) || list_mentions(
        &record.summary.entities,
        needle,
        Ghost(query),
    )
}

/// The URLs of the records that mention `query`, in the order of the records.
pub fn scan_records(records: &Vec<StoredSummary>, query: &str) -> (urls: Vec<String>)
    ensures
        texts(urls@) == scan_urls(views(records@), query@),
{
    let lower = to_lower(query);
    let needle = chars_of(lower.as_str());
    let mut urls: Vec<String> = Vec::new();
    let mut i: usize = 0;
    proof {
        reveal(Seq::filter);
        assert(views(records@).take(0) =~= Seq::<StoredSummaryView>::empty());
        assert(texts(urls@) =~= scan_urls(views(records@).take(0), query@));
    }
    while i < records.len()
        invariant
            i <= records@.len(),
            needle@ == lowercase(query@),
            texts(urls@) == scan_urls(views(records@).take(i as int), query@),
        decreases records@.len() - i,
    {
        let hit = matches_needle(&records[i], &needle, Ghost(query@));
        proof {
            reveal(Seq::filter);
            let all = views(records@);
            assert(all.take(i + 1).drop_last() =~= all.take(i as int));
            assert(all.take(i + 1).last() == records@[i as int]@);
        }
        if hit {
            let url = records[i].url.clone();
            proof {
                let all = views(records@);
                let kept = all.take(i as int).filter(mentioning(query@));
                assert(all.take(i + 1).filter(mentioning(query@)) == kept.push(all[i as int]));
                assert(kept.push(all[i as int]).map_values(|record: StoredSummaryView| record.url)
                    =~= kept.map_values(|record: StoredSummaryView| record.url).push(
                    all[i as int].url,
                ));
                assert(texts(urls@.push(url)) =~= scan_urls(all.take(i + 1), query@));
            }
            urls.push(url);
        }
        i = i + 1;
    }
    proof {
        assert(views(records@).take(records@.len() as int) =~= views(records@));
    }
    urls
}

/// `urls` answers `query` by a scan of the store: the URLs of the records
/// that mention the query, in the order of a listing.
pub open spec fn is_scan_answer(
    entries: Map<Seq<u8>, Seq<u8>>,
    query: Seq<char>,
    urls: Seq<Seq<char>>,
) -> bool {
    exists|listing: Seq<StoredSummaryView>| #[trigger]
        is_listing(entries, listing) && urls == scan_urls(listing, query)
}

/// Simple text-based search for when the index is not available
pub fn simple_search(storage: &Storage, query: &str) -> (r: Result<Vec<String>, StorageError>)
    ensures
        match r {
            Ok(urls) => is_scan_answer(storage.entries(), query@, texts(urls@)),
            Err(StorageError::Corrupt(label)) => exists|key: Seq<u8>| #[trigger]
                is_unreadable_at(storage.entries(), key) && label@ == key_label(key),
            Err(StorageError::Backend(_)) => true,
            Err(StorageError::NotFound(_)) => false,
        },
{
    match storage.list_all() {
        Ok(records) => {
            let urls = scan_records(&records, query);
            assert(is_listing(storage.entries(), views(records@)));
            Ok(urls)
        },
        Err(e) => Err(e),
    }
}

/// The hits of the index that stand as the answer: those of a search that
/// succeeded and found something.
pub fn usable_hits(outcome: Result<Vec<String>, SearchError>) -> (hits: Option<Vec<String>>)
    ensures
        match outcome {
            Ok(urls) => if urls@.len() > 0 {
                hits == Some(urls)
            } else {
                hits is None
            },
            Err(_) => hits is None,
        },
{
    match outcome {
        Ok(urls) => if urls.len() > 0 {
            Some(urls)
        } else {
            None
        },
        Err(_) => None,
    }
}

/// The answer to `query` once the index has answered with `outcome`, or
/// could not be asked: the hits of the index where the search succeeded
/// and found something, and otherwise a scan of the store.
pub fn answer_from(storage: &Storage, outcome: Result<Vec<String>, SearchError>, query: &str) -> (r:
    Result<Vec<String>, StorageError>)
    ensures
        (outcome matches Ok(hits) && hits@.len() > 0) ==> r == Ok::<Vec<String>, StorageError>(
            outcome->Ok_0,
        ),
        !(outcome matches Ok(hits) && hits@.len() > 0) ==> (match r {
            Ok(urls) => is_scan_answer(storage.entries(), query@, texts(urls@)),
            Err(StorageError::Corrupt(label)) => exists|key: Seq<u8>| #[trigger]
                is_unreadable_at(storage.entries(), key) && label@ == key_label(key),
            Err(StorageError::Backend(_)) => true,
            Err(StorageError::NotFound(_)) => false,
        }),
{
    match usable_hits(outcome) {
        Some(urls) => Ok(urls),
        None => simple_search(storage, query),
    }
}

/// `urls` answers `query` from the index: the search ran and found them.
pub open spec fn is_ranked_answer(
    index: Result<SearchIndex, SearchError>,
    query: Seq<char>,
    limit: nat,
    urls: Seq<Seq<char>>,
) -> bool {
    index matches Ok(ix) && is_query(query) && 0 < urls.len() <= limit && is_hit_list(
        ix.docs(),
        query,
        limit,
        urls,
    )
}

/// Answers `query` with the index as it was opened, or as it failed to
/// open. The hits of the index are the answer where there are any; where
/// the index is missing, the search fails or nothing is found, the answer
/// is a scan of the store.
pub fn resolve_with(
    storage: &Storage,
    index: Result<SearchIndex, SearchError>,
    query: &str,
    limit: usize,
) -> (r: Result<Vec<String>, StorageError>)
    requires
        index matches Ok(ix) ==> ix.wf(),
    ensures
        match r {
            Ok(urls) => is_ranked_answer(index, query@, limit as nat, texts(urls@))
                || is_scan_answer(storage.entries(), query@, texts(urls@)),
            Err(StorageError::Corrupt(label)) => exists|key: Seq<u8>| #[trigger]
                is_unreadable_at(storage.entries(), key) && label@ == key_label(key),
            Err(StorageError::Backend(_)) => true,
            Err(StorageError::NotFound(_)) => false,
        },
        index is Err || !is_query(query@) || limit == 0 ==> (r matches Ok(urls) ==> is_scan_answer(
            storage.entries(),
            query@,
            texts(urls@),
        )),
{
    let outcome = match index {
        Ok(ix) => ix.search(query, limit),
        Err(e) => Err(e),
    };
    answer_from(storage, outcome, query)
}

/// Answers `query` with up to `limit` URLs from the index in the directory
/// `index_path`, or by a scan of the store.
pub fn resolve_query(storage: &Storage, index_path: &str, query: &str, limit: usize) -> (r: Result<
    Vec<String>,
    StorageError,
>)
    ensures
        match r {
            Ok(urls) => (exists|index: Result<SearchIndex, SearchError>| #[trigger]
                is_ranked_answer(index, query@, limit as nat, texts(urls@))) || is_scan_answer(
                storage.entries(),
                query@,
                texts(urls@),
            ),
            Err(StorageError::Corrupt(label)) => exists|key: Seq<u8>| #[trigger]
                is_unreadable_at(storage.entries(), key) && label@ == key_label(key),
            Err(StorageError::Backend(_)) => true,
            Err(StorageError::NotFound(_)) => false,
        },
        !is_query(query@) || limit == 0 ==> (r matches Ok(urls) ==> is_scan_answer(
            storage.entries(),
            query@,
            texts(urls@),
        )),
{
    let index = SearchIndex::open(index_path);
    resolve_with(storage, index, query, limit)
}

} // verus!
