use summa::codec::{decode, encode};
use summa::storage::StoredSummary;
use summa::summary::Summary;

fn sample() -> StoredSummary {
    StoredSummary::at(
        "https://example.org/päge".to_string(),
        -42,
        Summary::new(
            "Title".to_string(),
            String::new(),
            vec!["one".to_string(), String::new(), "drei ✓".to_string()],
            vec![],
            vec!["do it".to_string()],
        ),
    )
}

#[test]
fn decode_undoes_encode() {
    let record = sample();
    assert_eq!(decode(&encode(&record)), Some(record));
}

#[test]
fn encoding_is_length_prefixed() {
    let record = StoredSummary::at(
        "ab".to_string(),
        1,
        Summary::new("t".to_string(), String::new(), vec!["k".to_string()], vec![], vec![]),
    );
    let mut expected: Vec<u8> = vec![1];
    expected.extend([2, 0, 0, 0, 0, 0, 0, 0]);
    expected.extend(b"ab");
    expected.extend([1, 0, 0, 0, 0, 0, 0, 0]);
    expected.extend([1, 0, 0, 0, 0, 0, 0, 0]);
    expected.extend(b"t");
    expected.extend([0, 0, 0, 0, 0, 0, 0, 0]);
    expected.extend([1, 0, 0, 0, 0, 0, 0, 0]);
    expected.extend([1, 0, 0, 0, 0, 0, 0, 0]);
    expected.extend(b"k");
    expected.extend([0, 0, 0, 0, 0, 0, 0, 0]);
    expected.extend([0, 0, 0, 0, 0, 0, 0, 0]);
    assert_eq!(encode(&record), expected);
}

#[test]
fn truncated_bytes_are_rejected() {
    let bytes = encode(&sample());
    for cut in 0..bytes.len() {
        assert_eq!(decode(&bytes[..cut]), None, "cut at {cut}");
    }
}

#[test]
fn trailing_bytes_are_rejected() {
    let mut bytes = encode(&sample());
    bytes.push(0);
    assert_eq!(decode(&bytes), None);
}

#[test]
fn unknown_tag_is_rejected() {
    let mut bytes = encode(&sample());
    bytes[0] = 2;
    assert_eq!(decode(&bytes), None);
}

#[test]
fn ill_formed_utf8_is_rejected() {
    let record = StoredSummary::at("ab".to_string(), 1, Summary::new(
        String::new(), String::new(), vec![], vec![], vec![]));
    let mut bytes = encode(&record);
    bytes[9] = 0xff;
    assert_eq!(decode(&bytes), None);
}

#[test]
fn oversized_length_is_rejected() {
    let mut bytes = vec![1u8];
    bytes.extend([0xff; 8]);
    bytes.extend(b"ab");
    assert_eq!(decode(&bytes), None);
}

#[test]
fn empty_lists_are_kept_apart_from_empty_texts() {
    let none = StoredSummary::at(String::new(), 0, Summary::new(
        String::new(), String::new(), vec![], vec![], vec![]));
    let one_empty = StoredSummary::at(String::new(), 0, Summary::new(
        String::new(), String::new(), vec![String::new()], vec![], vec![]));
    assert_ne!(encode(&none), encode(&one_empty));
    assert_eq!(decode(&encode(&one_empty)), Some(one_empty));
    assert_eq!(decode(&encode(&none)), Some(none));
}

#[test]
fn summary_without_lists_is_empty() {
    let text = |s: &str| s.to_string();
    assert!(Summary::new(text(""), text(""), vec![], vec![], vec![]).is_empty());
    assert!(Summary::new(text("T"), text("C"), vec![], vec![], vec![]).is_empty());
    assert!(!Summary::new(text(""), text(""), vec![text("k")], vec![], vec![]).is_empty());
    assert!(!Summary::new(text(""), text(""), vec![], vec![text("e")], vec![]).is_empty());
    assert!(!Summary::new(text(""), text(""), vec![], vec![], vec![text("a")]).is_empty());
    assert!(!Summary::new(text(""), text(""), vec![text("")], vec![], vec![]).is_empty());
}
