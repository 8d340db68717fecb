//! The record store: summaries kept in a sled database, one entry per store key.

use crate::codec::{decode, decode_record, encode_parts, encode_record, utf8_to_string};
use crate::keys::{hash_url, store_key};
use crate::laws::lemma_scan_counts_entries;
use crate::listing::{is_listing_of, sort_newest_first, views};
use crate::summary::{Summary, SummaryView};
use vstd::prelude::*;
use vstd::utf8::*;

verus! {

#[verifier::external_type_specification]
#[verifier::external_body]
pub struct ExDb(sled::Db);

#[verifier::external_type_specification]
#[verifier::external_body]
pub struct ExDbError(sled::Error);

/// What a database holds: the value stored under each key. The handle is
/// taken to be the only one that writes to the files of the database.
pub uninterp spec fn db_entries(db: sled::Db) -> Map<Seq<u8>, Seq<u8>>;

/// The value that `m` holds under `key`, if any.
pub open spec fn held(m: Map<Seq<u8>, Seq<u8>>, key: Seq<u8>) -> Option<Seq<u8>> {
    if m.contains_key(key) {
        Some(m[key])
    } else {
        None
    }
}

/// The bytes of an optional value.
pub open spec fn bytes_of(value: Option<Vec<u8>>) -> Option<Seq<u8>> {
    match value {
        Some(v) => Some(v@),
        None => None,
    }
}

/// `a` comes before `b` in the order of byte strings: at the first place
/// where they differ `a` holds the smaller byte, or `a` is a proper prefix of `b`.
pub open spec fn bytes_lt(a: Seq<u8>, b: Seq<u8>) -> bool
    decreases a.len(),
{
    if b.len() == 0 {
        false
    } else if a.len() == 0 {
        true
    } else if a[0] != b[0] {
        a[0] < b[0]
    } else {
        bytes_lt(a.drop_first(), b.drop_first())
    }
}

/// The keys and values of a list of entries.
pub open spec fn pairs(items: Seq<(Vec<u8>, Vec<u8>)>) -> Seq<(Seq<u8>, Seq<u8>)> {
    items.map_values(|e: (Vec<u8>, Vec<u8>)| (e.0@, e.1@))
}

/// `items` are the entries of `m`, each once, in ascending order of their keys.
pub open spec fn is_scan_of(m: Map<Seq<u8>, Seq<u8>>, items: Seq<(Seq<u8>, Seq<u8>)>) -> bool {
    &&& forall|i: int, j: int| 0 <= i < j < items.len() ==> bytes_lt(items[i].0, items[j].0)
    &&& forall|i: int| 0 <= i < items.len() ==> m.contains_pair((#[trigger] items[i]).0, items[i].1)
    &&& forall|k: Seq<u8>| m.contains_key(k) ==> exists|i: int| 0 <= i < items.len() && (#[trigger] items[i]).0 == k
}

/// `sled::open`: opens the database at `path`, creating it when there is
/// none. What it holds is whatever the files hold: a finite set of entries.
#[verifier::external_body]
fn db_open(path: &str) -> (r: Result<sled::Db, sled::Error>)
    ensures
        r matches Ok(db) ==> db_entries(db).dom().finite(),
{
    sled::open(path)
}

/// `sled::Tree::insert`: on success `key` holds `value` and nothing else has
/// changed; the result is the value that `key` held before.
#[verifier::external_body]
fn db_insert(db: &mut sled::Db, key: &[u8], value: Vec<u8>) -> (r: Result<Option<Vec<u8>>, sled::Error>)
    ensures
        db_entries(*final(db)).dom().finite() == db_entries(*old(db)).dom().finite(),
        r matches Ok(previous) ==> db_entries(*final(db)) == db_entries(*old(db)).insert(key@, value@)
            && bytes_of(previous) == held(db_entries(*old(db)), key@),
{
    db.insert(key, value).map(|previous| previous.map(|v| v.to_vec()))
}

/// `sled::Tree::get`: the value that `key` holds, if any.
#[verifier::external_body]
fn db_get(db: &sled::Db, key: &[u8]) -> (r: Result<Option<Vec<u8>>, sled::Error>)
    ensures
        r matches Ok(found) ==> bytes_of(found) == held(db_entries(*db), key@),
{
    db.get(key).map(|found| found.map(|v| v.to_vec()))
}

/// `sled::Tree::remove`: on success `key` holds nothing and nothing else has
/// changed; the result is the value that `key` held before.
#[verifier::external_body]
fn db_remove(db: &mut sled::Db, key: &[u8]) -> (r: Result<Option<Vec<u8>>, sled::Error>)
    ensures
        db_entries(*final(db)).dom().finite() == db_entries(*old(db)).dom().finite(),
        r matches Ok(previous) ==> db_entries(*final(db)) == db_entries(*old(db)).remove(key@)
            && bytes_of(previous) == held(db_entries(*old(db)), key@),
{
    db.remove(key).map(|previous| previous.map(|v| v.to_vec()))
}

/// `sled::Tree::flush`: forces what was written to disk. It changes no entry.
#[verifier::external_body]
fn db_flush(db: &sled::Db) -> (r: Result<usize, sled::Error>)
{
    db.flush()
}

/// `sled::Tree::iter`, read to its end: every entry once, in ascending order
/// of the keys, or the first error that the scan met.
#[verifier::external_body]
fn db_scan(db: &sled::Db) -> (r: Result<Vec<(Vec<u8>, Vec<u8>)>, sled::Error>)
    ensures
        r matches Ok(items) ==> is_scan_of(db_entries(*db), pairs(items@)),
{
    db.iter().map(|entry| entry.map(|(k, v)| (k.to_vec(), v.to_vec()))).collect()
}

/// `DateTime::<Utc>::from` of chrono on `SystemTime::now` of the standard
/// library, as `DateTime::timestamp_micros` gives it: the microseconds
/// since the Unix epoch on this machine's clock, negative where the clock
/// reads a time before it.
#[verifier::external_body]
fn now_micros() -> i64 {
    chrono::DateTime::<chrono::Utc>::from(std::time::SystemTime::now()).timestamp_micros()
}

/// What went wrong in the record store.
#[derive(Debug)]
pub enum StorageError {
    /// The database failed.
    Backend(sled::Error),
    /// The entry stored for this URL, or under this key, is not a record.
    Corrupt(String),
    /// No record is stored for this URL.
    NotFound(String),
}

/// The mathematical value of a [`StoredSummary`].
pub struct StoredSummaryView {
    pub url: Seq<char>,
    pub created_at: i64,
    pub summary: SummaryView,
}

/// A stored summary with metadata
#[derive(Debug, PartialEq, Eq)]
pub struct StoredSummary {
    /// The source URL
    pub url: String,
    /// When the summary was created, in microseconds since the Unix epoch
    pub created_at: i64,
    /// The summary itself
    pub summary: Summary,
}

impl View for StoredSummary {
    type V = StoredSummaryView;

    open spec fn view(&self) -> StoredSummaryView {
        StoredSummaryView { url: self.url@, created_at: self.created_at, summary: self.summary@ }
    }
}

impl Clone for StoredSummary {
    fn clone(&self) -> (copy: Self)
        ensures
            copy@ == self@,
    {
        StoredSummary {
            url: self.url.clone(),
            created_at: self.created_at,
            summary: self.summary.clone(),
        }
    }
}

impl StoredSummary {
    /// Create a new stored summary, created now
    pub fn new(url: String, summary: Summary) -> (stored: Self)
        ensures
            stored.url == url,
            stored.summary == summary,
    {
        Self::at(url, now_micros(), summary)
    }

    /// A stored summary created at the given time.
    pub fn at(url: String, created_at: i64, summary: Summary) -> (stored: Self)
        ensures
            stored.url == url,
            stored.created_at == created_at,
            stored.summary == summary,
    {
        Self { url, created_at, summary }
    }
}

/// The entries after the record `r` has been put.
pub open spec fn put_entry(m: Map<Seq<u8>, Seq<u8>>, r: StoredSummaryView) -> Map<Seq<u8>, Seq<u8>> {
    m.insert(store_key(r.url), encode_record(r))
}

/// The entries after the record of `url` has been deleted.
pub open spec fn delete_entry(m: Map<Seq<u8>, Seq<u8>>, url: Seq<char>) -> Map<Seq<u8>, Seq<u8>> {
    m.remove(store_key(url))
}

/// What a lookup of `url` finds in `m`: nothing, a record, or bytes that are no record.
pub enum Lookup {
    Absent,
    Found(StoredSummaryView),
    Unreadable,
}

pub open spec fn read_value(value: Option<Seq<u8>>) -> Lookup {
    match value {
        None => Lookup::Absent,
        Some(bytes) => match decode_record(bytes) {
            Some(r) => Lookup::Found(r),
            None => Lookup::Unreadable,
        },
    }
}

pub open spec fn lookup(m: Map<Seq<u8>, Seq<u8>>, url: Seq<char>) -> Lookup {
    read_value(held(m, store_key(url)))
}

/// Every entry is the record of a URL and stands under the key of that
/// URL. A store that was empty and has since been written to through
/// `put_entry` and `delete_entry` alone is of this kind.
pub open spec fn is_keyed(m: Map<Seq<u8>, Seq<u8>>) -> bool {
    forall|k: Seq<u8>| #[trigger]
        m.contains_key(k) ==> (decode_record(m[k]) matches Some(r) && store_key(r.url) == k)
}

/// The text by which an unreadable entry is reported: its key read as UTF-8,
/// or nothing where the key is not UTF-8.
pub open spec fn key_label(key: Seq<u8>) -> Seq<char> {
    if valid_utf8(key) {
        decode_utf8(key)
    } else {
        Seq::empty()
    }
}

/// The records that the entries `items` decode to, or the key of the first
/// entry that does not decode.
pub open spec fn decode_all(items: Seq<(Seq<u8>, Seq<u8>)>) -> Result<Seq<StoredSummaryView>, Seq<u8>>
    decreases items.len(),
{
    if items.len() == 0 {
        Ok(Seq::empty())
    } else {
        match decode_all(items.drop_last()) {
            Err(key) => Err(key),
            Ok(records) => match decode_record(items.last().1) {
                Some(r) => Ok(records.push(r)),
                None => Err(items.last().0),
            },
        }
    }
}

/// `records` is what a listing of `m` returns: the records that the
/// entries of `m` decode to, newest first, those of equal age in the order
/// of their keys.
pub open spec fn is_listing(m: Map<Seq<u8>, Seq<u8>>, records: Seq<StoredSummaryView>) -> bool {
    exists|items: Seq<(Seq<u8>, Seq<u8>)>|
        is_scan_of(m, items) && ((#[trigger] decode_all(items)) matches Ok(decoded)
            && is_listing_of(decoded, records))
}

/// A listing of `m` fails on `key`: it is the first key, in ascending
/// order, whose value is no record.
pub open spec fn is_unreadable_at(m: Map<Seq<u8>, Seq<u8>>, key: Seq<u8>) -> bool {
    exists|items: Seq<(Seq<u8>, Seq<u8>)>|
        is_scan_of(m, items) && (#[trigger] decode_all(items)) == Err::<
            Seq<StoredSummaryView>,
            Seq<u8>,
        >(key)
}

/// The text of a key, for reports.
fn label_of(key: &Vec<u8>) -> (label: String)
    ensures
        label@ == key_label(key@),
{
    match utf8_to_string(vstd::slice::slice_to_vec(key.as_slice())) {
        Some(text) => text,
        None => String::new(),
    }
}

/// Sled-based storage for webpage summaries.
///
/// Stores summaries keyed by URL hash for efficient retrieval.
pub struct Storage {
    db: sled::Db,
}

impl Storage {
    /// The entries of the store: the bytes stored under each key.
    pub closed spec fn entries(&self) -> Map<Seq<u8>, Seq<u8>> {
        db_entries(self.db)
    }

    /// Open or create storage at the given path
    pub fn open(path: &str) -> (r: Result<Self, StorageError>)
        ensures
            match r {
                Ok(storage) => storage.entries().dom().finite(),
                Err(e) => e is Backend,
            },
    {
        match db_open(path) {
            Ok(db) => Ok(Storage { db }),
            Err(e) => Err(StorageError::Backend(e)),
        }
    }

    /// Create a hash of the URL for use as a key
    pub fn hash_url(url: &str) -> (key: Vec<u8>)
        ensures
            key@ == store_key(url@),
    {
        hash_url(url)
    }

    /// Store a summary for a URL, created now. On success the store holds
    /// the new record under the key of `url`, in place of whatever that key
    /// held, and the write has been flushed.
    pub fn store(&mut self, url: &str, summary: &Summary) -> (r: Result<(), StorageError>)
        ensures
            old(self).entries().dom().finite() ==> final(self).entries().dom().finite(),
            match r {
                Ok(()) => exists|at: i64| #[trigger]
                    put_entry(
                        old(self).entries(),
                        StoredSummaryView { url: url@, created_at: at, summary: summary@ },
                    ) == final(self).entries(),
                Err(e) => e is Backend,
            },
    {
        let at = now_micros();
        let r = self.store_at(url, summary, at);
        proof {
            if r is Ok {
                assert(put_entry(
                    old(self).entries(),
                    StoredSummaryView { url: url@, created_at: at, summary: summary@ },
                ) == self.entries());
            }
        }
        r
    }

    /// Store a summary for a URL as created at `created_at`.
    pub fn store_at(&mut self, url: &str, summary: &Summary, created_at: i64) -> (r: Result<
        (),
        StorageError,
    >)
        ensures
            old(self).entries().dom().finite() ==> final(self).entries().dom().finite(),
            match r {
                Ok(()) => final(self).entries() == put_entry(
                    old(self).entries(),
                    StoredSummaryView { url: url@, created_at, summary: summary@ },
                ),
                Err(e) => e is Backend,
            },
    {
        let key = hash_url(url);
        let value = encode_parts(url, created_at, summary);
        match db_insert(&mut self.db, key.as_slice(), value) {
            Ok(_) => {},
            Err(e) => { return Err(StorageError::Backend(e)); },
        }
        match db_flush(&self.db) {
            Ok(_) => Ok(()),
            Err(e) => Err(StorageError::Backend(e)),
        }
    }

    /// What a lookup of `url` returns once the database has answered with `found`.
    pub fn read_entry(url: &str, found: Option<Vec<u8>>) -> (r: Result<
        Option<StoredSummary>,
        StorageError,
    >)
        ensures
            match read_value(bytes_of(found)) {
                Lookup::Absent => r matches Ok(None),
                Lookup::Found(record) => r matches Ok(Some(stored)) && stored@ == record,
                Lookup::Unreadable => r matches Err(StorageError::Corrupt(u)) && u@ == url@,
            },
    {
        match found {
            Some(data) => match decode(data.as_slice()) {
                Some(stored) => Ok(Some(stored)),
                None => Err(StorageError::Corrupt(url.to_owned())),
            },
            None => Ok(None),
        }
    }

    /// Retrieve a summary by URL
    pub fn get(&self, url: &str) -> (r: Result<Option<StoredSummary>, StorageError>)
        ensures
            match r {
                Ok(Some(stored)) => lookup(self.entries(), url@) == Lookup::Found(stored@),
                Ok(None) => lookup(self.entries(), url@) is Absent,
                Err(StorageError::Corrupt(u)) => u@ == url@ && lookup(self.entries(), url@)
                    is Unreadable,
                Err(StorageError::Backend(_)) => true,
                Err(StorageError::NotFound(_)) => false,
            },
    {
        let key = hash_url(url);
        match db_get(&self.db, key.as_slice()) {
            Ok(found) => Self::read_entry(url, found),
            Err(e) => Err(StorageError::Backend(e)),
        }
    }

    /// What a listing returns once the database has handed over its entries
    /// `items`: their records, newest first, or the first entry that is no record.
    pub fn collect_records(items: Vec<(Vec<u8>, Vec<u8>)>) -> (r: Result<
        Vec<StoredSummary>,
        StorageError,
    >)
        ensures
            match decode_all(pairs(items@)) {
                Ok(decoded) => r matches Ok(records) && is_listing_of(decoded, views(records@)),
                Err(key) => r matches Err(StorageError::Corrupt(label)) && label@ == key_label(key),
            },
    {
        let mut results: Vec<StoredSummary> = Vec::new();
        let mut i: usize = 0;
        proof {
            assert(pairs(items@).take(0) =~= Seq::<(Seq<u8>, Seq<u8>)>::empty());
            assert(views(results@) =~= Seq::<StoredSummaryView>::empty());
        }
        while i < items.len()
            invariant
                i <= items@.len(),
                decode_all(pairs(items@).take(i as int)) == Ok::<Seq<StoredSummaryView>, Seq<u8>>(
                    views(results@),
                ),
            decreases items@.len() - i,
        {
            proof {
                let all = pairs(items@);
                assert(all.take(i + 1).drop_last() =~= all.take(i as int));
                assert(all.take(i + 1).last() == all[i as int]);
            }
            match decode(items[i].1.as_slice()) {
                Some(stored) => {
                    proof {
                        assert(views(results@.push(stored)) =~= views(results@).push(stored@));
                    }
                    results.push(stored);
                },
                None => {
                    proof {
                        lemma_decode_all_stops(pairs(items@), i + 1);
                    }
                    return Err(StorageError::Corrupt(label_of(&items[i].0)));
                },
            }
            i = i + 1;
        }
        proof {
            assert(pairs(items@).take(items@.len() as int) =~= pairs(items@));
        }
        Ok(sort_newest_first(results))
    }

    /// List all stored summaries, newest first
    pub fn list_all(&self) -> (r: Result<Vec<StoredSummary>, StorageError>)
        ensures
            match r {
                Ok(records) => is_listing(self.entries(), views(records@)),
                Err(StorageError::Corrupt(label)) => exists|key: Seq<u8>| #[trigger]
                    is_unreadable_at(self.entries(), key) && label@ == key_label(key),
                Err(StorageError::Backend(_)) => true,
                Err(StorageError::NotFound(_)) => false,
            },
    {
        match db_scan(&self.db) {
            Ok(items) => {
                let r = Self::collect_records(items);
                proof {
                    let scanned = pairs(items@);
                    match decode_all(scanned) {
                        Ok(decoded) => {},
                        Err(key) => {
                            assert(is_unreadable_at(self.entries(), key));
                        },
                    }
                }
                r
            },
            Err(e) => Err(StorageError::Backend(e)),
        }
    }

    /// Delete a summary by URL. On success the result tells whether the key
    /// of `url` held anything.
    pub fn delete(&mut self, url: &str) -> (r: Result<bool, StorageError>)
        ensures
            old(self).entries().dom().finite() ==> final(self).entries().dom().finite(),
            match r {
                Ok(existed) => final(self).entries() == delete_entry(old(self).entries(), url@)
                    && existed == old(self).entries().contains_key(store_key(url@)),
                Err(e) => e is Backend,
            },
    {
        let key = hash_url(url);
        let existed = match db_remove(&mut self.db, key.as_slice()) {
            Ok(previous) => previous.is_some(),
            Err(e) => { return Err(StorageError::Backend(e)); },
        };
        match db_flush(&self.db) {
            Ok(_) => Ok(existed),
            Err(e) => Err(StorageError::Backend(e)),
        }
    }

    /// The number that a count returns once the database has answered a
    /// scan with `scanned`: the number of the entries, or 0 where the scan failed.
    pub fn count_scanned(scanned: &Result<Vec<(Vec<u8>, Vec<u8>)>, sled::Error>) -> (n: usize)
        ensures
            match scanned {
                Ok(items) => n == items@.len(),
                Err(_) => n == 0,
            },
    {
        match scanned {
            Ok(items) => items.len(),
            Err(_) => 0,
        }
    }

    /// Get the number of stored summaries. The entries are counted by a
    /// scan; where the database fails to be scanned the result is 0.
    pub fn count(&self) -> (n: usize)
        ensures
            n == self.entries().dom().len() || n == 0,
            self.entries().dom().len() == 0 ==> n == 0,
    {
        let scanned = db_scan(&self.db);
        proof {
            if let Ok(items) = &scanned {
                lemma_scan_counts_entries(self.entries(), pairs(items@));
                assert(pairs(items@).len() == items@.len());
            }
        }
        Self::count_scanned(&scanned)
    }
}

/// Once an entry fails to decode, so does every longer run of entries, on the same key.
proof fn lemma_decode_all_stops(items: Seq<(Seq<u8>, Seq<u8>)>, n: int)
    requires
        0 <= n <= items.len(),
        decode_all(items.take(n)) is Err,
    ensures
        decode_all(items) == decode_all(items.take(n)),
    decreases items.len() - n,
{
    if n == items.len() {
        assert(items.take(n) =~= items);
    } else {
        assert(items.take(n + 1).drop_last() =~= items.take(n));
        lemma_decode_all_stops(items, n + 1);
    }
}

} // verus!
