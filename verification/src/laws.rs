//! What holds of the record store, the search index and the resolver
//! whatever they contain, stated over the entries of the store and the
//! documents of the index and proved from the contracts of the operations.

use crate::codec::{decode_record, encode_record, lemma_record_round_trip, record_fits};
use crate::keys::store_key;
use crate::listing::{
    created_at, is_listing_of, lemma_listing_holds_the_same, lemma_listing_no_duplicates,
};
use crate::storage::{
    bytes_lt, decode_all, delete_entry, is_keyed, is_listing, is_scan_of, lookup, put_entry,
    Lookup, StoredSummaryView,
};
use crate::resolver::{is_scan_answer, mentioning, mentions, record_mentions, scan_urls};
use crate::search::{
    field_is, index_document, is_hit_list, is_selection, present, reindexed, shown_texts, URL_FIELD,
};
use crate::summary::SummaryView;
use vstd::multiset::Multiset;
use vstd::prelude::*;

verus! {

/// The entries after the records `rs` have been put, one after the other.
pub open spec fn put_all(m: Map<Seq<u8>, Seq<u8>>, rs: Seq<StoredSummaryView>) -> Map<
    Seq<u8>,
    Seq<u8>,
>
    decreases rs.len(),
{
    if rs.len() == 0 {
        m
    } else {
        put_entry(put_all(m, rs.drop_last()), rs.last())
    }
}

/// No two of the records share a store key.
pub open spec fn distinct_keys(rs: Seq<StoredSummaryView>) -> bool {
    forall|i: int, j: int|
        0 <= i < j < rs.len() ==> store_key(#[trigger] rs[i].url) != store_key(#[trigger] rs[j].url)
}

/// Round trip: a record that has been put is what a lookup of its URL finds,
/// every field as it was.
pub proof fn lemma_get_after_put(m: Map<Seq<u8>, Seq<u8>>, r: StoredSummaryView)
    requires
        record_fits(r),
    ensures
        lookup(put_entry(m, r), r.url) == Lookup::Found(r),
{
    lemma_record_round_trip(r);
}

/// After a record has been put and its URL deleted, a lookup of the URL finds nothing.
pub proof fn lemma_get_after_delete(m: Map<Seq<u8>, Seq<u8>>, r: StoredSummaryView)
    ensures
        lookup(delete_entry(put_entry(m, r), r.url), r.url) is Absent,
{
}

/// Deleting a URL whose key holds nothing changes nothing, and what the
/// deletion reports, that the key held something, is false.
pub proof fn lemma_delete_absent(m: Map<Seq<u8>, Seq<u8>>, url: Seq<char>)
    requires
        lookup(m, url) is Absent,
    ensures
        !m.contains_key(store_key(url)),
        delete_entry(m, url) == m,
{
    assert(delete_entry(m, url) =~= m);
}

/// A URL is absent from a store that was empty and into which only records
/// of other keys were put.
pub proof fn lemma_never_stored_is_absent(rs: Seq<StoredSummaryView>, url: Seq<char>)
    requires
        forall|i: int| 0 <= i < rs.len() ==> store_key(#[trigger] rs[i].url) != store_key(url),
    ensures
        lookup(put_all(Map::empty(), rs), url) is Absent,
    decreases rs.len(),
{
    if rs.len() > 0 {
        let front = rs.drop_last();
        assert forall|i: int| 0 <= i < front.len() implies store_key(#[trigger] front[i].url)
            != store_key(url) by {
            assert(front[i] == rs[i]);
        }
        lemma_never_stored_is_absent(front, url);
        assert(store_key(rs[rs.len() - 1].url) != store_key(url));
    }
}

/// Putting a record under a URL that already has one replaces it: the
/// earlier record leaves no trace, the number of entries stays the same,
/// and a lookup finds the newer record.
pub proof fn lemma_put_replaces(
    m: Map<Seq<u8>, Seq<u8>>,
    earlier: StoredSummaryView,
    newer: StoredSummaryView,
)
    requires
        m.dom().finite(),
        earlier.url == newer.url,
        record_fits(newer),
    ensures
        put_entry(put_entry(m, earlier), newer) == put_entry(m, newer),
        put_entry(put_entry(m, earlier), newer).dom().len() == put_entry(m, earlier).dom().len(),
        lookup(put_entry(put_entry(m, earlier), newer), newer.url) == Lookup::Found(newer),
{
    let once = put_entry(m, earlier);
    let twice = put_entry(once, newer);
    assert(twice =~= put_entry(m, newer));
    assert(twice.dom() =~= once.dom());
    lemma_record_round_trip(newer);
}

/// No byte string comes before itself.
pub proof fn lemma_bytes_lt_irreflexive(a: Seq<u8>)
    ensures
        !bytes_lt(a, a),
    decreases a.len(),
{
    if a.len() > 0 {
        lemma_bytes_lt_irreflexive(a.drop_first());
    }
}

/// A scan holds as many entries as the store.
pub proof fn lemma_scan_counts_entries(m: Map<Seq<u8>, Seq<u8>>, items: Seq<(Seq<u8>, Seq<u8>)>)
    requires
        is_scan_of(m, items),
    ensures
        m.dom().finite(),
        m.dom().len() == items.len(),
{
    let keys = items.map_values(|e: (Seq<u8>, Seq<u8>)| e.0);
    assert forall|i: int, j: int| 0 <= i < keys.len() && 0 <= j < keys.len() && i != j implies keys[i]
        != keys[j] by {
        lemma_bytes_lt_irreflexive(keys[i]);
        if i < j {
            assert(bytes_lt(items[i].0, items[j].0));
        } else {
            assert(bytes_lt(items[j].0, items[i].0));
        }
    }
    assert(keys.to_set() =~= m.dom()) by {
        assert forall|k: Seq<u8>| keys.to_set().contains(k) <==> m.dom().contains(k) by {
            if keys.to_set().contains(k) {
                let i = choose|i: int| 0 <= i < keys.len() && keys[i] == k;
                assert(m.contains_pair(items[i].0, items[i].1));
            }
            if m.dom().contains(k) {
                let i = choose|i: int| 0 <= i < items.len() && (#[trigger] items[i]).0 == k;
                assert(keys[i] == k);
            }
        }
    }
    vstd::seq_lib::seq_to_set_is_finite(keys);
    keys.unique_seq_to_set();
}

/// The records of a run of entries that all decode: as many as the entries,
/// each the record of the entry in its place.
pub proof fn lemma_decode_all_each(items: Seq<(Seq<u8>, Seq<u8>)>)
    requires
        decode_all(items) is Ok,
    ensures
        decode_all(items)->Ok_0.len() == items.len(),
        forall|i: int|
            0 <= i < items.len() ==> decode_record((#[trigger] items[i]).1) == Some(
                decode_all(items)->Ok_0[i],
            ),
    decreases items.len(),
{
    if items.len() > 0 {
        let front = items.drop_last();
        lemma_decode_all_each(front);
        assert forall|i: int| 0 <= i < items.len() implies decode_record((#[trigger] items[i]).1)
            == Some(decode_all(items)->Ok_0[i]) by {
            if i < front.len() {
                assert(front[i] == items[i]);
            }
        }
    }
}

/// A listing holds one record for each entry of the store.
pub proof fn lemma_listing_counts_entries(
    m: Map<Seq<u8>, Seq<u8>>,
    listing: Seq<StoredSummaryView>,
)
    requires
        is_listing(m, listing),
    ensures
        m.dom().finite(),
        listing.len() == m.dom().len(),
{
    let items = choose|items: Seq<(Seq<u8>, Seq<u8>)>|
        is_scan_of(m, items) && ((#[trigger] decode_all(items)) matches Ok(decoded)
            && is_listing_of(decoded, listing));
    lemma_scan_counts_entries(m, items);
    lemma_decode_all_each(items);
}

/// Every record of a listing is the record of some entry of the store.
pub proof fn lemma_listed_is_stored(
    m: Map<Seq<u8>, Seq<u8>>,
    listing: Seq<StoredSummaryView>,
    i: int,
) -> (key: Seq<u8>)
    requires
        is_listing(m, listing),
        0 <= i < listing.len(),
    ensures
        m.contains_key(key),
        decode_record(m[key]) == Some(listing[i]),
{
    let items = choose|items: Seq<(Seq<u8>, Seq<u8>)>|
        is_scan_of(m, items) && ((#[trigger] decode_all(items)) matches Ok(decoded)
            && is_listing_of(decoded, listing));
    let decoded = decode_all(items)->Ok_0;
    lemma_decode_all_each(items);
    let pred = created_at(listing[i].created_at);
    listing.lemma_filter_contains(pred, i);
    assert(decoded.filter(pred) == listing.filter(pred));
    decoded.lemma_filter_contains_rev(pred, listing[i]);
    let j = choose|j: int| 0 <= j < decoded.len() && decoded[j] == listing[i];
    assert(m.contains_pair(items[j].0, items[j].1));
    items[j].0
}

/// After `rs` have been put into an empty store, under keys that are all
/// different, each key holds the encoding of its record and nothing else is held.
pub proof fn lemma_put_all_entries(rs: Seq<StoredSummaryView>)
    requires
        distinct_keys(rs),
    ensures
        forall|i: int|
            0 <= i < rs.len() ==> put_all(Map::empty(), rs).contains_pair(
                store_key(#[trigger] rs[i].url),
                encode_record(rs[i]),
            ),
        forall|k: Seq<u8>| #[trigger]
            put_all(Map::empty(), rs).contains_key(k) ==> exists|i: int|
                0 <= i < rs.len() && store_key(#[trigger] rs[i].url) == k,
    decreases rs.len(),
{
    if rs.len() > 0 {
        let front = rs.drop_last();
        let last = rs.last();
        assert(distinct_keys(front)) by {
            assert forall|i: int, j: int| 0 <= i < j < front.len() implies store_key(
                #[trigger] front[i].url,
            ) != store_key(#[trigger] front[j].url) by {
                assert(front[i] == rs[i] && front[j] == rs[j]);
            }
        }
        lemma_put_all_entries(front);
        let before = put_all(Map::empty(), front);
        let after = put_all(Map::empty(), rs);
        assert(after == put_entry(before, last));
        assert forall|i: int| 0 <= i < rs.len() implies after.contains_pair(
            store_key(#[trigger] rs[i].url),
            encode_record(rs[i]),
        ) by {
            if i < front.len() {
                assert(front[i] == rs[i]);
                assert(store_key(rs[i].url) != store_key(rs[rs.len() - 1].url));
                assert(before.contains_pair(store_key(front[i].url), encode_record(front[i])));
            }
        }
        assert forall|k: Seq<u8>| #[trigger] after.contains_key(k) implies exists|i: int|
            0 <= i < rs.len() && store_key(#[trigger] rs[i].url) == k by {
            if k == store_key(last.url) {
                assert(store_key(rs[rs.len() - 1].url) == k);
            } else {
                assert(before.contains_key(k));
                let i = choose|i: int| 0 <= i < front.len() && store_key(#[trigger] front[i].url) == k;
                assert(front[i] == rs[i]);
            }
        }
    }
}

/// After `rs` have been put into an empty store, under keys that are all
/// different, the store holds as many entries as records were put.
pub proof fn lemma_put_all_count(rs: Seq<StoredSummaryView>)
    requires
        distinct_keys(rs),
    ensures
        put_all(Map::empty(), rs).dom().finite(),
        put_all(Map::empty(), rs).dom().len() == rs.len(),
{
    let m = put_all(Map::empty(), rs);
    lemma_put_all_entries(rs);
    let keys = rs.map_values(|r: StoredSummaryView| store_key(r.url));
    assert(keys.no_duplicates()) by {
        assert forall|i: int, j: int| 0 <= i < keys.len() && 0 <= j < keys.len() && i != j implies keys[i]
            != keys[j] by {
            if i < j {
                assert(store_key(rs[i].url) != store_key(rs[j].url));
            } else {
                assert(store_key(rs[j].url) != store_key(rs[i].url));
            }
        }
    }
    assert(keys.to_set() =~= m.dom()) by {
        assert forall|k: Seq<u8>| keys.to_set().contains(k) <==> m.dom().contains(k) by {
            if keys.to_set().contains(k) {
                let i = choose|i: int| 0 <= i < keys.len() && keys[i] == k;
                assert(m.contains_pair(store_key(rs[i].url), encode_record(rs[i])));
            }
            if m.contains_key(k) {
                let i = choose|i: int| 0 <= i < rs.len() && store_key(#[trigger] rs[i].url) == k;
                assert(keys[i] == k);
            }
        }
    }
    vstd::seq_lib::seq_to_set_is_finite(keys);
    keys.unique_seq_to_set();
}

/// After records of different keys have been put into an empty store, a
/// lookup of the URL of each finds it.
pub proof fn lemma_distinct_puts_are_found(rs: Seq<StoredSummaryView>, i: int)
    requires
        distinct_keys(rs),
        0 <= i < rs.len(),
        record_fits(rs[i]),
    ensures
        lookup(put_all(Map::empty(), rs), rs[i].url) == Lookup::Found(rs[i]),
{
    let m = put_all(Map::empty(), rs);
    lemma_put_all_entries(rs);
    assert(m.contains_pair(store_key(rs[i].url), encode_record(rs[i])));
    lemma_record_round_trip(rs[i]);
}

/// After records of different keys have been put into an empty store, a
/// listing returns exactly as many records as were put, each of them one of
/// the records put, and a lookup of the URL of each finds it.
pub proof fn lemma_distinct_puts_are_listed(
    rs: Seq<StoredSummaryView>,
    listing: Seq<StoredSummaryView>,
)
    requires
        distinct_keys(rs),
        forall|i: int| 0 <= i < rs.len() ==> record_fits(#[trigger] rs[i]),
        is_listing(put_all(Map::empty(), rs), listing),
    ensures
        listing.len() == rs.len(),
        forall|i: int|
            0 <= i < listing.len() ==> rs.contains(#[trigger] listing[i]) && lookup(
                put_all(Map::empty(), rs),
                listing[i].url,
            ) == Lookup::Found(listing[i]),
        forall|q: int| 0 <= q < rs.len() ==> listing.contains(#[trigger] rs[q]),
        forall|i: int, j: int|
            0 <= i < listing.len() && 0 <= j < listing.len() && i != j ==> (#[trigger] listing[i]).url
                != (#[trigger] listing[j]).url,
{
    let m = put_all(Map::empty(), rs);
    lemma_listing_counts_entries(m, listing);
    lemma_put_all_count(rs);
    lemma_put_all_is_keyed(rs);
    assert forall|q: int| 0 <= q < rs.len() implies listing.contains(#[trigger] rs[q]) by {
        lemma_put_all_entries(rs);
        assert(m.contains_pair(store_key(rs[q].url), encode_record(rs[q])));
        lemma_record_round_trip(rs[q]);
        lemma_stored_is_listed(m, listing, store_key(rs[q].url), rs[q]);
    }
    assert forall|i: int, j: int|
        0 <= i < listing.len() && 0 <= j < listing.len() && i != j implies (#[trigger] listing[i]).url
        != (#[trigger] listing[j]).url by {
        lemma_listing_urls_differ(m, listing, i, j);
    }
    assert forall|i: int| 0 <= i < listing.len() implies rs.contains(#[trigger] listing[i])
        && lookup(m, listing[i].url) == Lookup::Found(listing[i]) by {
        let q = lemma_listed_was_put(rs, listing, i);
        lemma_distinct_puts_are_found(rs, q);
    }
}

/// Each record of a listing is one of the records that were put.
proof fn lemma_listed_was_put(
    rs: Seq<StoredSummaryView>,
    listing: Seq<StoredSummaryView>,
    i: int,
) -> (q: int)
    requires
        distinct_keys(rs),
        forall|i: int| 0 <= i < rs.len() ==> record_fits(#[trigger] rs[i]),
        is_listing(put_all(Map::empty(), rs), listing),
        0 <= i < listing.len(),
    ensures
        0 <= q < rs.len(),
        rs[q] == listing[i],
{
    let m = put_all(Map::empty(), rs);
    let key = lemma_listed_is_stored(m, listing, i);
    lemma_put_all_entries(rs);
    let q = choose|q: int| 0 <= q < rs.len() && store_key(#[trigger] rs[q].url) == key;
    assert(m.contains_pair(store_key(rs[q].url), encode_record(rs[q])));
    lemma_record_round_trip(rs[q]);
    q
}

/// Every record that the store holds under some key is in every listing.
pub proof fn lemma_stored_is_listed(
    m: Map<Seq<u8>, Seq<u8>>,
    listing: Seq<StoredSummaryView>,
    key: Seq<u8>,
    record: StoredSummaryView,
)
    requires
        is_listing(m, listing),
        m.contains_key(key),
        decode_record(m[key]) == Some(record),
    ensures
        listing.contains(record),
{
    let items = choose|items: Seq<(Seq<u8>, Seq<u8>)>|
        is_scan_of(m, items) && ((#[trigger] decode_all(items)) matches Ok(decoded)
            && is_listing_of(decoded, listing));
    let decoded = decode_all(items)->Ok_0;
    lemma_decode_all_each(items);
    let i = choose|i: int| 0 <= i < items.len() && (#[trigger] items[i]).0 == key;
    assert(m.contains_pair(items[i].0, items[i].1));
    assert(decoded[i] == record);
    let pred = created_at(record.created_at);
    decoded.lemma_filter_contains(pred, i);
    assert(listing.filter(pred) == decoded.filter(pred));
    listing.lemma_filter_contains_rev(pred, record);
}

/// A scan returns the URL of every record that mentions the query.
pub proof fn lemma_scan_finds_mention(listing: Seq<StoredSummaryView>, i: int, query: Seq<char>)
    requires
        0 <= i < listing.len(),
        record_mentions(listing[i], query),
    ensures
        scan_urls(listing, query).contains(listing[i].url),
{
    let pred = mentioning(query);
    listing.lemma_filter_contains(pred, i);
    let kept = listing.filter(pred);
    let j = choose|j: int| 0 <= j < kept.len() && kept[j] == listing[i];
    assert(scan_urls(listing, query)[j] == listing[i].url);
}

/// Fallback: where the store holds a record whose title mentions the query,
/// whatever the case of the letters, an answer by scan holds the URL of
/// that record.
pub proof fn lemma_fallback_finds_title(
    entries: Map<Seq<u8>, Seq<u8>>,
    url: Seq<char>,
    record: StoredSummaryView,
    query: Seq<char>,
    urls: Seq<Seq<char>>,
)
    requires
        lookup(entries, url) == Lookup::Found(record),
        mentions(record.summary.title, query),
        is_scan_answer(entries, query, urls),
    ensures
        urls.contains(record.url),
{
    let listing = choose|listing: Seq<StoredSummaryView>| #[trigger]
        is_listing(entries, listing) && urls == scan_urls(listing, query);
    lemma_stored_is_listed(entries, listing, store_key(url), record);
    let i = choose|i: int| 0 <= i < listing.len() && listing[i] == record;
    lemma_scan_finds_mention(listing, i, query);
}

/// After a document has been indexed, it is the one document of its URL
/// that the index holds.
pub proof fn lemma_reindex_leaves_one(docs: Multiset<Seq<Seq<char>>>, doc: Seq<Seq<char>>)
    requires
        URL_FIELD < doc.len(),
    ensures
        reindexed(docs, doc).filter(field_is(URL_FIELD, doc[URL_FIELD as int]))
            == Multiset::singleton(doc),
        reindexed(docs, doc).filter(field_is(URL_FIELD, doc[URL_FIELD as int])).len() == 1,
{
    broadcast use vstd::multiset::group_multiset_axioms;

    let url = doc[URL_FIELD as int];
    let kept = reindexed(docs, doc).filter(field_is(URL_FIELD, url));
    assert forall|d: Seq<Seq<char>>| kept.count(d) == Multiset::singleton(doc).count(d) by {
        lemma_reindexed_count(docs, doc, d);
    }
    assert(kept =~= Multiset::singleton(doc));
}

/// How often a document of the URL of `doc` is held after `doc` has been
/// indexed: once if it is `doc`, else not at all.
pub proof fn lemma_reindexed_count(
    docs: Multiset<Seq<Seq<char>>>,
    doc: Seq<Seq<char>>,
    d: Seq<Seq<char>>,
)
    requires
        URL_FIELD < doc.len(),
    ensures
        field_is(URL_FIELD, doc[URL_FIELD as int])(d) ==> reindexed(docs, doc).count(d) == (if d
            == doc {
            1nat
        } else {
            0nat
        }),
        reindexed(docs, doc).filter(field_is(URL_FIELD, doc[URL_FIELD as int])).count(d) == (if d
            == doc {
            1nat
        } else {
            0nat
        }),
{
    broadcast use vstd::multiset::group_multiset_axioms;

}

/// Indexing a URL a second time replaces its document: the index holds
/// what it would hold had only the second document been indexed.
pub proof fn lemma_reindex_replaces(
    docs: Multiset<Seq<Seq<char>>>,
    url: Seq<char>,
    first: SummaryView,
    second: SummaryView,
)
    ensures
        reindexed(reindexed(docs, index_document(url, first)), index_document(url, second))
            == reindexed(docs, index_document(url, second)),
{
    broadcast use vstd::multiset::group_multiset_axioms;

    let d1 = index_document(url, first);
    let d2 = index_document(url, second);
    let twice = reindexed(reindexed(docs, d1), d2);
    let once = reindexed(docs, d2);
    assert forall|d: Seq<Seq<char>>| twice.count(d) == once.count(d) by {
        lemma_reindexed_count(docs, d1, d);
    }
    assert(twice =~= once);
}

/// The texts that are there come from places in their order: each from a
/// place of its own.
pub proof fn lemma_present_places(found: Seq<Option<Seq<char>>>, i: int, j: int) -> (places: (
    int,
    int,
))
    requires
        0 <= i < j < present(found).len(),
    ensures
        0 <= places.0 < places.1 < found.len(),
        found[places.0] == Some(present(found)[i]),
        found[places.1] == Some(present(found)[j]),
    decreases found.len(),
{
    let front = found.drop_last();
    match found.last() {
        Some(t) => {
            if j == present(front).len() {
                let a = lemma_present_place(front, i);
                (a, found.len() - 1)
            } else {
                lemma_present_places(front, i, j)
            }
        },
        None => lemma_present_places(front, i, j),
    }
}

/// A text that is there comes from some place.
pub proof fn lemma_present_place(found: Seq<Option<Seq<char>>>, i: int) -> (place: int)
    requires
        0 <= i < present(found).len(),
    ensures
        0 <= place < found.len(),
        found[place] == Some(present(found)[i]),
    decreases found.len(),
{
    let front = found.drop_last();
    match found.last() {
        Some(t) => {
            if i == present(front).len() {
                found.len() - 1
            } else {
                lemma_present_place(front, i)
            }
        },
        None => lemma_present_place(front, i),
    }
}

/// After a summary has been indexed for a URL, once or again, a search
/// returns that URL at most once.
pub proof fn lemma_one_hit_per_url(
    docs: Multiset<Seq<Seq<char>>>,
    url: Seq<char>,
    summary: SummaryView,
    query: Seq<char>,
    limit: nat,
    urls: Seq<Seq<char>>,
    i: int,
    j: int,
)
    requires
        is_hit_list(reindexed(docs, index_document(url, summary)), query, limit, urls),
        0 <= i < urls.len(),
        0 <= j < urls.len(),
        urls[i] == url,
        urls[j] == url,
    ensures
        i == j,
{
    broadcast use vstd::multiset::group_multiset_axioms;

    if i != j {
        let doc = index_document(url, summary);
        let held = reindexed(docs, doc);
        let picked = choose|picked: Seq<Seq<Seq<char>>>|
            {
                &&& #[trigger] is_selection(
                    held,
                    crate::search::summary_layout(),
                    crate::search::default_fields(),
                    query,
                    limit,
                    picked,
                )
                &&& urls == present(shown_texts(picked, URL_FIELD))
            };
        let shown = shown_texts(picked, URL_FIELD);
        let (lo, hi) = if i < j {
            (i, j)
        } else {
            (j, i)
        };
        let (a, b) = lemma_present_places(shown, lo, hi);
        assert(shown[a] == Some(url) && shown[b] == Some(url));
        let s0 = picked.subrange(0, b);
        let s1 = picked.subrange(b, picked.len() as int);
        assert(picked =~= s0 + s1);
        vstd::seq_lib::lemma_multiset_commutative(s0, s1);
        s0.to_multiset_ensures();
        s1.to_multiset_ensures();
        picked.to_multiset_ensures();
        assert(s0[a] == picked[a] && s1[0] == picked[b]);
        assert(picked.to_multiset().count(picked[a]) >= 1);
        assert(picked.to_multiset().count(picked[b]) >= 1);
        lemma_reindexed_count(docs, doc, picked[a]);
        lemma_reindexed_count(docs, doc, picked[b]);
        assert(picked[a] == doc && picked[b] == doc);
        assert(s0.contains(doc) && s1.contains(doc));
        assert(picked.to_multiset().count(doc) >= 2);
        assert(held.count(doc) == 1);
    }
}

/// An empty store holds every entry under the key of its URL.
pub proof fn lemma_empty_is_keyed()
    ensures
        is_keyed(Map::empty()),
{
}

/// Putting a record keeps every entry under the key of its URL.
pub proof fn lemma_put_keeps_keyed(m: Map<Seq<u8>, Seq<u8>>, r: StoredSummaryView)
    requires
        is_keyed(m),
        record_fits(r),
    ensures
        is_keyed(put_entry(m, r)),
{
    lemma_record_round_trip(r);
    let after = put_entry(m, r);
    assert forall|k: Seq<u8>| #[trigger] after.contains_key(k) implies (decode_record(
        after[k],
    ) matches Some(held) && store_key(held.url) == k) by {
        if k != store_key(r.url) {
            assert(m.contains_key(k));
        }
    }
}

/// Deleting a URL keeps every entry under the key of its URL.
pub proof fn lemma_delete_keeps_keyed(m: Map<Seq<u8>, Seq<u8>>, url: Seq<char>)
    requires
        is_keyed(m),
    ensures
        is_keyed(delete_entry(m, url)),
{
    let after = delete_entry(m, url);
    assert forall|k: Seq<u8>| #[trigger] after.contains_key(k) implies (decode_record(
        after[k],
    ) matches Some(held) && store_key(held.url) == k) by {
        assert(m.contains_key(k));
    }
}

/// A store that was empty and into which records were put, whatever their
/// URLs, holds every entry under the key of its URL.
pub proof fn lemma_put_all_is_keyed(rs: Seq<StoredSummaryView>)
    requires
        forall|i: int| 0 <= i < rs.len() ==> record_fits(#[trigger] rs[i]),
    ensures
        is_keyed(put_all(Map::empty(), rs)),
    decreases rs.len(),
{
    if rs.len() == 0 {
        lemma_empty_is_keyed();
    } else {
        let front = rs.drop_last();
        assert forall|i: int| 0 <= i < front.len() implies record_fits(#[trigger] front[i]) by {
            assert(front[i] == rs[i]);
        }
        lemma_put_all_is_keyed(front);
        assert(record_fits(rs[rs.len() - 1]));
        lemma_put_keeps_keyed(put_all(Map::empty(), front), rs.last());
    }
}

/// In a store that holds every entry under the key of its URL, a listing
/// holds no URL twice: each URL of the store stands in it exactly once.
pub proof fn lemma_listing_urls_differ(
    m: Map<Seq<u8>, Seq<u8>>,
    listing: Seq<StoredSummaryView>,
    i: int,
    j: int,
)
    requires
        is_keyed(m),
        is_listing(m, listing),
        0 <= i < listing.len(),
        0 <= j < listing.len(),
        i != j,
    ensures
        store_key(listing[i].url) != store_key(listing[j].url),
        listing[i].url != listing[j].url,
{
    let items = choose|items: Seq<(Seq<u8>, Seq<u8>)>|
        is_scan_of(m, items) && ((#[trigger] decode_all(items)) matches Ok(decoded)
            && is_listing_of(decoded, listing));
    let decoded = decode_all(items)->Ok_0;
    lemma_decode_all_each(items);
    assert forall|a: int| 0 <= a < decoded.len() implies store_key((#[trigger] decoded[a]).url)
        == items[a].0 by {
        assert(m.contains_pair(items[a].0, items[a].1));
        assert(m.contains_key(items[a].0));
    }
    assert forall|a: int, b: int|
        0 <= a < decoded.len() && 0 <= b < decoded.len() && a != b implies store_key(
        decoded[a].url,
    ) != store_key(decoded[b].url) by {
        lemma_bytes_lt_irreflexive(items[a].0);
        if a < b {
            assert(bytes_lt(items[a].0, items[b].0));
        } else {
            assert(bytes_lt(items[b].0, items[a].0));
        }
    }
    assert(decoded.no_duplicates());
    lemma_listing_no_duplicates(decoded, listing);
    lemma_listing_holds_the_same(decoded, listing, listing[i]);
    lemma_listing_holds_the_same(decoded, listing, listing[j]);
    let a = choose|a: int| 0 <= a < decoded.len() && decoded[a] == listing[i];
    let b = choose|b: int| 0 <= b < decoded.len() && decoded[b] == listing[j];
    assert(listing[i] != listing[j]);
    assert(a != b);
}

/// After a URL that has a record has been put again, a listing holds one
/// record of that URL, the newer one, and nothing of the earlier remains.
pub proof fn lemma_put_replaces_in_listing(
    m: Map<Seq<u8>, Seq<u8>>,
    earlier: StoredSummaryView,
    newer: StoredSummaryView,
    listing: Seq<StoredSummaryView>,
    i: int,
)
    requires
        is_keyed(m),
        earlier.url == newer.url,
        record_fits(newer),
        is_listing(put_entry(put_entry(m, earlier), newer), listing),
        0 <= i < listing.len(),
        listing[i].url == newer.url,
    ensures
        listing.contains(newer),
        listing[i] == newer,
{
    let after = put_entry(put_entry(m, earlier), newer);
    assert(after =~= put_entry(m, newer));
    lemma_put_keeps_keyed(m, newer);
    lemma_record_round_trip(newer);
    lemma_stored_is_listed(after, listing, store_key(newer.url), newer);
    let j = choose|j: int| 0 <= j < listing.len() && listing[j] == newer;
    if i != j {
        lemma_listing_urls_differ(after, listing, i, j);
    }
}

} // verus!
