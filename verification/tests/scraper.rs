use summa::scraper::{
    content_of, extract_text, extract_text_from_element, extract_title, ScraperError,
};
use summa::text::{chars_of, join_chars, split_words};

fn page(html: &str) -> ::scraper::Html {
    ::scraper::Html::parse_document(html)
}

const LONG_A: &str = "This paragraph is clearly longer than twenty bytes.";
const LONG_B: &str = "Another paragraph that is long enough to be kept.";

#[test]
fn title_comes_from_the_title_element() {
    let doc = page("<html><head><title>  My Page \n</title></head><body><h1>Heading</h1></body></html>");
    assert_eq!(extract_title(&doc).as_deref(), Some("My Page"));
}

#[test]
fn title_falls_back_to_the_first_heading() {
    let doc = page("<html><head><title>  </title></head><body><h1> First <b>bold</b></h1><h1>Second</h1></body></html>");
    assert_eq!(extract_title(&doc).as_deref(), Some("First bold"));
    let doc = page("<html><body><h1>Only</h1></body></html>");
    assert_eq!(extract_title(&doc).as_deref(), Some("Only"));
}

#[test]
fn page_without_title_or_heading_has_no_title() {
    assert_eq!(extract_title(&page("<html><body><p>text</p></body></html>")), None);
    assert_eq!(extract_title(&page("<html><head><title></title></head><body><h1> </h1></body></html>")), None);
}

#[test]
fn short_paragraphs_are_dropped() {
    let html = format!("<html><body><p>{LONG_A}</p><p>too short</p><li>{LONG_B}</li><p>exactly twenty bytes</p></body></html>");
    assert_eq!(extract_text_from_element(&page(&html)), format!("{LONG_A}\n\n{LONG_B}"));
}

#[test]
fn white_space_is_squeezed_and_nodes_are_joined() {
    let html = "<html><body><p>  Some   text\n with <b>bold</b>and\tmore   words inside </p></body></html>";
    assert_eq!(
        extract_text_from_element(&page(html)),
        "Some text with bold and more words inside"
    );
}

#[test]
fn main_content_is_preferred() {
    let html = format!("<html><body><p>{LONG_B}</p><article><p>{LONG_A}</p></article></body></html>");
    assert_eq!(extract_text(&page(&html)), LONG_A);
    let html = format!("<html><body><div id=\"content\"><p>{LONG_A}</p></div><main><p>{LONG_B}</p></main></body></html>");
    assert_eq!(extract_text(&page(&html)), LONG_B);
    let html = format!("<html><body><div role=\"main\"><h2>{LONG_A}</h2></div><div class=\"content\"><p>{LONG_B}</p></div></body></html>");
    assert_eq!(extract_text(&page(&html)), LONG_A);
}

#[test]
fn empty_main_content_is_passed_over() {
    let html = format!("<html><body><article><p>short</p></article><div class=\"content\"><p>{LONG_A}</p></div><p>{LONG_B}</p></body></html>");
    assert_eq!(extract_text(&page(&html)), LONG_A);
    let html = format!("<html><body><article></article><p>{LONG_B}</p></body></html>");
    assert_eq!(extract_text(&page(&html)), LONG_B);
}

#[test]
fn fetched_page_becomes_content() {
    let html = format!("<html><head><title>T</title></head><body><p>{LONG_A}</p></body></html>");
    let content = content_of("https://a", &html).unwrap();
    assert_eq!(content.url, "https://a");
    assert_eq!(content.title.as_deref(), Some("T"));
    assert_eq!(content.text, LONG_A);
}

#[test]
fn page_with_only_short_text_has_no_content() {
    assert_eq!(
        content_of("https://a", "<html><body><p>tiny</p></body></html>"),
        Err(ScraperError::NoContent)
    );
    assert_eq!(content_of("https://a", ""), Err(ScraperError::NoContent));
}

#[test]
fn words_agree_with_the_standard_library() {
    for s in ["", " ", "a", " a  b ", "one\ttwo\n\nthree", "\u{a0}x\u{2003}y z", "trailing "] {
        let found: Vec<String> =
            split_words(&chars_of(s)).into_iter().map(|w| w.into_iter().collect()).collect();
        let expected: Vec<&str> = s.split_whitespace().collect();
        assert_eq!(found, expected, "{s:?}");
    }
}

#[test]
fn joining_puts_the_separator_between() {
    let list = vec![chars_of("a"), chars_of(""), chars_of("bc")];
    let out: String = join_chars(&list, &chars_of(", ")).into_iter().collect();
    assert_eq!(out, "a, , bc");
    assert!(join_chars(&vec![], &chars_of("x")).is_empty());
    assert_eq!(join_chars(&vec![chars_of("solo")], &chars_of("x")), chars_of("solo"));
}
