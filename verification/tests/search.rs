use summa::search::{IndexDocument, QueryIssue, SearchError, SearchIndex};
use summa::summary::Summary;

fn text(s: &str) -> String {
    s.to_string()
}

fn summary(title: &str, conclusion: &str, key_points: &[&str], entities: &[&str]) -> Summary {
    Summary::new(
        text(title),
        text(conclusion),
        key_points.iter().map(|s| text(s)).collect(),
        entities.iter().map(|s| text(s)).collect(),
        vec![],
    )
}

fn open_in(dir: &tempfile::TempDir) -> SearchIndex {
    SearchIndex::open(dir.path().to_str().unwrap()).unwrap()
}

#[test]
fn indexed_summary_is_found_by_title() {
    let dir = tempfile::tempdir().unwrap();
    let mut index = open_in(&dir);
    index
        .index_summary("https://a", &summary("Rust Ownership", "", &["borrow checker"], &[]))
        .unwrap();
    assert_eq!(index.search("ownership", 5).unwrap(), vec!["https://a"]);
    assert_eq!(index.search("borrow", 5).unwrap(), vec!["https://a"]);
    assert_eq!(index.search("python", 5).unwrap(), Vec::<String>::new());
}

#[test]
fn fresh_index_finds_nothing() {
    let dir = tempfile::tempdir().unwrap();
    let index = open_in(&dir);
    assert_eq!(index.search("anything", 5).unwrap(), Vec::<String>::new());
}

#[test]
fn reindexing_leaves_one_document() {
    let dir = tempfile::tempdir().unwrap();
    let mut index = open_in(&dir);
    index.index_summary("https://a", &summary("First heading", "x", &[], &[])).unwrap();
    index.index_summary("https://a", &summary("Second heading", "x", &[], &[])).unwrap();
    assert_eq!(index.search("second", 10).unwrap(), vec!["https://a"]);
    assert_eq!(index.search("heading", 10).unwrap(), vec!["https://a"]);
    assert_eq!(index.search("first", 10).unwrap(), Vec::<String>::new());
}

#[test]
fn reindexing_one_url_keeps_the_others() {
    let dir = tempfile::tempdir().unwrap();
    let mut index = open_in(&dir);
    index.index_summary("https://a", &summary("Shared word", "", &[], &[])).unwrap();
    index.index_summary("https://a/b", &summary("Shared term", "", &[], &[])).unwrap();
    index.index_summary("https://a", &summary("Shared again", "", &[], &[])).unwrap();
    let mut hits = index.search("shared", 10).unwrap();
    hits.sort();
    assert_eq!(hits, vec!["https://a", "https://a/b"]);
}

#[test]
fn search_returns_no_more_than_the_limit() {
    let dir = tempfile::tempdir().unwrap();
    let mut index = open_in(&dir);
    for i in 0..4 {
        index
            .index_summary(&format!("https://site/{i}"), &summary("common topic", "", &[], &[]))
            .unwrap();
    }
    assert_eq!(index.search("common", 3).unwrap().len(), 3);
    assert_eq!(index.search("common", 10).unwrap().len(), 4);
    assert_eq!(index.search("common", 0).unwrap().len(), 0);
}

#[test]
fn empty_query_is_an_error() {
    let dir = tempfile::tempdir().unwrap();
    let index = open_in(&dir);
    assert!(matches!(index.search("", 5), Err(SearchError::QueryError(QueryIssue::Empty))));
    assert!(matches!(index.search("", 0), Err(SearchError::QueryError(QueryIssue::Empty))));
}

#[test]
fn unparseable_query_is_an_error() {
    let dir = tempfile::tempdir().unwrap();
    let index = open_in(&dir);
    assert!(matches!(
        index.search("nofield:value", 5),
        Err(SearchError::QueryError(QueryIssue::Rejected(_)))
    ));
    assert!(matches!(
        index.search("nofield:value", 0),
        Err(SearchError::QueryError(QueryIssue::Rejected(_)))
    ));
}

#[test]
fn action_items_are_indexed_but_not_searched_by_default() {
    let dir = tempfile::tempdir().unwrap();
    let mut index = open_in(&dir);
    let s = Summary::new(text("t"), text("c"), vec![], vec![text("Tokio")], vec![text("refactor")]);
    index.index_summary("https://a", &s).unwrap();
    assert_eq!(index.search("tokio", 5).unwrap(), vec!["https://a"]);
    assert_eq!(index.search("refactor", 5).unwrap(), Vec::<String>::new());
    assert_eq!(index.search("action_items:refactor", 5).unwrap(), vec!["https://a"]);
}

#[test]
fn index_survives_reopening() {
    let dir = tempfile::tempdir().unwrap();
    {
        let mut index = open_in(&dir);
        index.index_summary("https://a", &summary("Durable", "", &[], &[])).unwrap();
    }
    let index = open_in(&dir);
    assert_eq!(index.search("durable", 5).unwrap(), vec!["https://a"]);
}

#[test]
fn open_fails_without_the_directory() {
    let dir = tempfile::tempdir().unwrap();
    let missing = dir.path().join("missing");
    assert!(matches!(
        SearchIndex::open(missing.to_str().unwrap()),
        Err(SearchError::Backend(_))
    ));
}

#[test]
fn document_joins_lists_with_spaces() {
    let s = Summary::new(
        text("T"),
        text("C"),
        vec![text("one"), text("two"), text("three")],
        vec![text("solo")],
        vec![],
    );
    let doc = IndexDocument::project("https://a", &s);
    assert_eq!(doc.url, "https://a");
    assert_eq!(doc.title, "T");
    assert_eq!(doc.conclusion, "C");
    assert_eq!(doc.key_points, "one two three");
    assert_eq!(doc.entities, "solo");
    assert_eq!(doc.action_items, "");
    assert_eq!(
        doc.into_texts(),
        vec!["https://a", "T", "C", "one two three", "solo", ""]
    );
}

#[test]
fn collect_urls_passes_over_missing_texts() {
    let found = vec![Some(text("https://a")), None, Some(text("https://b"))];
    assert_eq!(SearchIndex::collect_urls(&found), vec!["https://a", "https://b"]);
}

#[test]
fn url_longer_than_a_term_is_refused() {
    let dir = tempfile::tempdir().unwrap();
    let mut index = open_in(&dir);
    let s = summary("Lengthy", "", &[], &[]);
    let too_long = format!("https://a/{}", "x".repeat(65_530));
    assert!(matches!(index.index_summary(&too_long, &s), Err(SearchError::UrlTooLong)));
    assert_eq!(index.search("lengthy", 5).unwrap(), Vec::<String>::new());
    let longest = format!("https://a/{}", "x".repeat(65_520));
    assert_eq!(longest.len(), 65_530);
    index.index_summary(&longest, &s).unwrap();
    index.index_summary(&longest, &s).unwrap();
    assert_eq!(index.search("lengthy", 5).unwrap(), vec![longest]);
}

#[test]
fn limit_beyond_the_number_of_documents_is_fine() {
    let dir = tempfile::tempdir().unwrap();
    let mut index = open_in(&dir);
    index.index_summary("https://a", &summary("Huge limit", "", &[], &[])).unwrap();
    assert_eq!(index.search("huge", usize::MAX).unwrap(), vec!["https://a"]);
    let empty_dir = tempfile::tempdir().unwrap();
    let empty = open_in(&empty_dir);
    assert_eq!(empty.search("huge", usize::MAX).unwrap(), Vec::<String>::new());
}
