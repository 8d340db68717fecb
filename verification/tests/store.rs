use std::hash::{Hash, Hasher};
use summa::storage::{Storage, StorageError, StoredSummary};
use summa::summary::Summary;

fn text(s: &str) -> String {
    s.to_string()
}

fn rust_summary() -> Summary {
    Summary::new(
        text("Rust Ownership"),
        text(""),
        vec![text("borrow checker")],
        vec![],
        vec![],
    )
}

fn open_in(dir: &tempfile::TempDir) -> Storage {
    Storage::open(dir.path().join("store").to_str().unwrap()).unwrap()
}

#[test]
fn put_then_get_returns_the_record() {
    let dir = tempfile::tempdir().unwrap();
    let mut storage = open_in(&dir);
    let summary = rust_summary();
    storage.store_at("https://a", &summary, 1_700_000_000_000_000).unwrap();
    let found = storage.get("https://a").unwrap().unwrap();
    assert_eq!(
        found,
        StoredSummary { url: text("https://a"), created_at: 1_700_000_000_000_000, summary }
    );
}

#[test]
fn store_stamps_the_record_with_the_clock() {
    let dir = tempfile::tempdir().unwrap();
    let mut storage = open_in(&dir);
    let summary = rust_summary();
    storage.store("https://a", &summary).unwrap();
    let found = storage.get("https://a").unwrap().unwrap();
    assert_eq!(found.url, "https://a");
    assert_eq!(found.summary, summary);
    assert!(found.created_at > 1_600_000_000_000_000);
}

#[test]
fn empty_store_lists_nothing() {
    let dir = tempfile::tempdir().unwrap();
    let storage = open_in(&dir);
    assert_eq!(storage.list_all().unwrap(), vec![]);
    assert_eq!(storage.count(), 0);
    assert_eq!(storage.get("https://a").unwrap(), None);
}

#[test]
fn delete_removes_the_record() {
    let dir = tempfile::tempdir().unwrap();
    let mut storage = open_in(&dir);
    storage.store("https://a", &rust_summary()).unwrap();
    assert!(storage.delete("https://a").unwrap());
    assert_eq!(storage.get("https://a").unwrap(), None);
    assert_eq!(storage.count(), 0);
}

#[test]
fn delete_of_a_url_never_stored_is_false() {
    let dir = tempfile::tempdir().unwrap();
    let mut storage = open_in(&dir);
    assert!(!storage.delete("https://never").unwrap());
    storage.store("https://a", &rust_summary()).unwrap();
    assert!(!storage.delete("https://never").unwrap());
    assert_eq!(storage.count(), 1);
}

#[test]
fn distinct_puts_are_all_listed() {
    let dir = tempfile::tempdir().unwrap();
    let mut storage = open_in(&dir);
    let urls = ["https://a", "https://b", "https://c", "https://d"];
    for (i, url) in urls.iter().enumerate() {
        let summary = Summary::new(format!("title {i}"), text("c"), vec![], vec![], vec![]);
        storage.store_at(url, &summary, 100 + i as i64).unwrap();
    }
    let listed = storage.list_all().unwrap();
    assert_eq!(listed.len(), urls.len());
    assert_eq!(storage.count(), urls.len());
    for record in &listed {
        assert_eq!(storage.get(&record.url).unwrap().as_ref(), Some(record));
    }
}

#[test]
fn listing_is_newest_first() {
    let dir = tempfile::tempdir().unwrap();
    let mut storage = open_in(&dir);
    let s = rust_summary();
    storage.store_at("https://old", &s, 10).unwrap();
    storage.store_at("https://new", &s, 30).unwrap();
    storage.store_at("https://mid", &s, 20).unwrap();
    storage.store_at("https://before-epoch", &s, -5).unwrap();
    let listed: Vec<String> = storage.list_all().unwrap().into_iter().map(|r| r.url).collect();
    assert_eq!(listed, vec!["https://new", "https://mid", "https://old", "https://before-epoch"]);
}

#[test]
fn put_again_replaces_the_record() {
    let dir = tempfile::tempdir().unwrap();
    let mut storage = open_in(&dir);
    storage.store_at("https://a", &rust_summary(), 1).unwrap();
    let newer = Summary::new(text("Second"), text("changed"), vec![], vec![text("e")], vec![]);
    storage.store_at("https://a", &newer, 2).unwrap();
    assert_eq!(storage.count(), 1);
    let listed = storage.list_all().unwrap();
    assert_eq!(listed.len(), 1);
    assert_eq!(listed[0].summary, newer);
    assert_eq!(storage.get("https://a").unwrap().unwrap().summary, newer);
}

#[test]
fn records_survive_reopening() {
    let dir = tempfile::tempdir().unwrap();
    {
        let mut storage = open_in(&dir);
        storage.store_at("https://a", &rust_summary(), 7).unwrap();
    }
    let storage = open_in(&dir);
    assert_eq!(storage.get("https://a").unwrap().unwrap().created_at, 7);
}

#[test]
fn read_entry_reports_corrupt_bytes_with_the_url() {
    let r = Storage::read_entry("https://a", Some(vec![9, 9, 9]));
    match r {
        Err(StorageError::Corrupt(url)) => assert_eq!(url, "https://a"),
        other => panic!("unexpected {:?}", other),
    }
    assert_eq!(Storage::read_entry("https://a", None).unwrap(), None);
}

#[test]
fn collect_records_reports_the_first_unreadable_key() {
    let good = summa::codec::encode(&StoredSummary::at(text("https://a"), 1, rust_summary()));
    let items = vec![
        (b"1".to_vec(), good.clone()),
        (b"2a".to_vec(), vec![1, 2]),
        (b"3".to_vec(), vec![]),
    ];
    match Storage::collect_records(items) {
        Err(StorageError::Corrupt(key)) => assert_eq!(key, "2a"),
        other => panic!("unexpected {:?}", other),
    }
    let listed = Storage::collect_records(vec![(b"1".to_vec(), good)]).unwrap();
    assert_eq!(listed.len(), 1);
    assert_eq!(listed[0].url, "https://a");
}

#[test]
fn keys_are_hexadecimal_hashes() {
    let key = Storage::hash_url("https://a");
    assert!(!key.is_empty() && key.len() <= 16);
    assert!(key.iter().all(|b| b.is_ascii_digit() || (b'a'..=b'f').contains(b)));
    assert_eq!(key, Storage::hash_url("https://a"));
    assert_ne!(key, Storage::hash_url("https://b"));
    assert_eq!(summa::keys::to_hex(0), b"0".to_vec());
    assert_eq!(summa::keys::to_hex(255), b"ff".to_vec());
    assert_eq!(summa::keys::to_hex(0x1a2b), b"1a2b".to_vec());
    assert_eq!(summa::keys::to_hex(u64::MAX), b"ffffffffffffffff".to_vec());
}

#[test]
fn keys_hash_as_a_default_hasher_does() {
    for url in ["", "https://a", "https://example.org/ä?q=1"] {
        let mut hasher = std::collections::hash_map::DefaultHasher::new();
        url.hash(&mut hasher);
        let expected = format!("{:x}", hasher.finish());
        assert_eq!(Storage::hash_url(url), expected.into_bytes());
    }
}

#[test]
fn scenario_of_one_record() {
    let dir = tempfile::tempdir().unwrap();
    let index_dir = tempfile::tempdir().unwrap();
    let mut storage = open_in(&dir);
    let summary = rust_summary();
    storage.store("https://a", &summary).unwrap();
    let found = storage.get("https://a").unwrap().unwrap();
    assert_eq!(found.url, "https://a");
    assert_eq!(found.summary.title, "Rust Ownership");
    assert_eq!(found.summary.key_points, vec!["borrow checker"]);
    assert!(found.summary.entities.is_empty());
    assert!(found.summary.action_items.is_empty());
    let mut index =
        summa::search::SearchIndex::open(index_dir.path().to_str().unwrap()).unwrap();
    index.index_summary("https://a", &found.summary).unwrap();
    assert_eq!(index.search("ownership", 5).unwrap(), vec!["https://a"]);
}

#[test]
fn scenario_of_the_empty_store() {
    let dir = tempfile::tempdir().unwrap();
    let index_dir = tempfile::tempdir().unwrap();
    let storage = open_in(&dir);
    assert!(storage.list_all().unwrap().is_empty());
    assert_eq!(storage.count(), 0);
    let index = summa::search::SearchIndex::open(index_dir.path().to_str().unwrap()).unwrap();
    assert!(index.search("anything", 5).unwrap().is_empty());
}

#[test]
fn count_is_the_length_of_a_scan() {
    let scanned = Ok(vec![(b"1".to_vec(), vec![1]), (b"2".to_vec(), vec![]), (b"3".to_vec(), vec![9, 9])]);
    assert_eq!(Storage::count_scanned(&scanned), 3);
    assert_eq!(Storage::count_scanned(&Ok(vec![])), 0);
    let dir = tempfile::tempdir().unwrap();
    let mut storage = open_in(&dir);
    for (i, url) in ["https://a", "https://b", "https://c"].iter().enumerate() {
        storage.store("https://a", &rust_summary()).unwrap();
        storage.store(url, &rust_summary()).unwrap();
        assert_eq!(storage.count(), i + 1);
    }
}

#[test]
fn listing_holds_each_url_once() {
    let dir = tempfile::tempdir().unwrap();
    let mut storage = open_in(&dir);
    let urls = ["https://a", "https://b", "https://c"];
    for round in 0..3 {
        for url in urls {
            let s = Summary::new(format!("{url} round {round}"), text(""), vec![], vec![], vec![]);
            storage.store(url, &s).unwrap();
        }
    }
    let listed = storage.list_all().unwrap();
    assert_eq!(listed.len(), urls.len());
    for url in urls {
        let of_url: Vec<_> = listed.iter().filter(|r| r.url == url).collect();
        assert_eq!(of_url.len(), 1);
        assert_eq!(of_url[0].summary.title, format!("{url} round 2"));
    }
}
