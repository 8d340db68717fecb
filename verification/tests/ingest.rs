use summa::ingest::{index_records, ingest, ingest_into, reindex_all, Indexing};
use summa::search::SearchIndex;
use summa::storage::{Storage, StoredSummary};
use summa::summary::Summary;

fn summary(title: &str) -> Summary {
    Summary::new(title.to_string(), "c".to_string(), vec!["kp".to_string()], vec![], vec![])
}

fn store_in(dir: &tempfile::TempDir) -> Storage {
    Storage::open(dir.path().join("store").to_str().unwrap()).unwrap()
}

#[test]
fn ingest_stores_and_indexes() {
    let dir = tempfile::tempdir().unwrap();
    let index_dir = tempfile::tempdir().unwrap();
    let mut storage = store_in(&dir);
    let path = index_dir.path().to_str().unwrap();
    let outcome = ingest(&mut storage, path, "https://a", &summary("Rust Ownership")).unwrap();
    assert!(matches!(outcome, Indexing::Indexed));
    assert_eq!(storage.get("https://a").unwrap().unwrap().summary, summary("Rust Ownership"));
    let index = SearchIndex::open(path).unwrap();
    assert_eq!(index.search("ownership", 5).unwrap(), vec!["https://a"]);
}

#[test]
fn ingest_stores_even_without_an_index() {
    let dir = tempfile::tempdir().unwrap();
    let mut storage = store_in(&dir);
    let missing = dir.path().join("no_index_here");
    let outcome =
        ingest(&mut storage, missing.to_str().unwrap(), "https://a", &summary("T")).unwrap();
    assert!(matches!(outcome, Indexing::Skipped(_)));
    assert_eq!(storage.count(), 1);
    let failed = SearchIndex::open(missing.to_str().unwrap());
    let (outcome, handle) = ingest_into(&mut storage, failed, "https://b", &summary("U")).unwrap();
    assert!(matches!(outcome, Indexing::Skipped(_)));
    assert!(handle.is_none());
    assert_eq!(storage.count(), 2);
}

#[test]
fn ingest_into_hands_the_index_back() {
    let dir = tempfile::tempdir().unwrap();
    let index_dir = tempfile::tempdir().unwrap();
    let mut storage = store_in(&dir);
    let index = SearchIndex::open(index_dir.path().to_str().unwrap());
    let (outcome, handle) = ingest_into(&mut storage, index, "https://a", &summary("Alpha")).unwrap();
    assert!(matches!(outcome, Indexing::Indexed));
    assert_eq!(handle.unwrap().search("alpha", 5).unwrap(), vec!["https://a"]);
}

#[test]
fn rebuild_indexes_every_stored_record() {
    let dir = tempfile::tempdir().unwrap();
    let index_dir = tempfile::tempdir().unwrap();
    let mut storage = store_in(&dir);
    storage.store("https://a", &summary("Alpha topic")).unwrap();
    storage.store("https://b", &summary("Beta topic")).unwrap();
    let mut index = SearchIndex::open(index_dir.path().to_str().unwrap()).unwrap();
    assert_eq!(index.search("topic", 10).unwrap().len(), 0);
    assert_eq!(reindex_all(&storage, &mut index).unwrap(), 2);
    assert_eq!(index.search("alpha", 10).unwrap(), vec!["https://a"]);
    assert_eq!(index.search("topic", 10).unwrap().len(), 2);
    assert_eq!(reindex_all(&storage, &mut index).unwrap(), 2);
    assert_eq!(index.search("topic", 10).unwrap().len(), 2);
}

#[test]
fn rebuild_of_an_empty_store_indexes_nothing() {
    let dir = tempfile::tempdir().unwrap();
    let index_dir = tempfile::tempdir().unwrap();
    let storage = store_in(&dir);
    let mut index = SearchIndex::open(index_dir.path().to_str().unwrap()).unwrap();
    assert_eq!(reindex_all(&storage, &mut index).unwrap(), 0);
    let records = vec![StoredSummary::at("https://x".to_string(), 1, summary("Xylophone"))];
    assert_eq!(index_records(&mut index, &records).unwrap(), 1);
    assert_eq!(index.search("xylophone", 10).unwrap(), vec!["https://x"]);
}

#[test]
fn url_too_long_for_the_index_is_stored_and_skipped() {
    let dir = tempfile::tempdir().unwrap();
    let index_dir = tempfile::tempdir().unwrap();
    let mut storage = store_in(&dir);
    let path = index_dir.path().to_str().unwrap();
    let url = format!("https://a/{}", "x".repeat(70_000));
    let outcome = ingest(&mut storage, path, &url, &summary("Lengthy")).unwrap();
    assert!(matches!(outcome, Indexing::Skipped(summa::search::SearchError::UrlTooLong)));
    assert_eq!(storage.get(&url).unwrap().unwrap().summary, summary("Lengthy"));
    let index = SearchIndex::open(path);
    let (outcome, handle) = ingest_into(&mut storage, index, &url, &summary("Lengthy")).unwrap();
    assert!(matches!(outcome, Indexing::Skipped(summa::search::SearchError::UrlTooLong)));
    assert_eq!(handle.unwrap().search("lengthy", 5).unwrap(), Vec::<String>::new());
}

#[test]
fn failed_opening_is_the_reason_for_skipping() {
    let dir = tempfile::tempdir().unwrap();
    let mut storage = store_in(&dir);
    let given = Err(summa::search::SearchError::QueryError(summa::search::QueryIssue::Empty));
    let (outcome, handle) = ingest_into(&mut storage, given, "https://a", &summary("T")).unwrap();
    assert!(matches!(
        outcome,
        Indexing::Skipped(summa::search::SearchError::QueryError(summa::search::QueryIssue::Empty))
    ));
    assert!(handle.is_none());
    assert_eq!(storage.count(), 1);
}
